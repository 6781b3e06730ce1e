use vstd::prelude::*;

use crate::args::Args;
use crate::text::{
    dash_join, dash_split, lemma_dash_join_split, lemma_dash_split_dash_then, lemma_dash_split_plain,
    split_dashes,
};

verus! {

/// A target triple `arch-vendor-os[-abi]`.
#[derive(Clone, Debug, PartialEq, Eq)]
pub struct TargetTriple {
    /// Architecture.
    pub arch: String,
    /// Vendor.
    pub vendor: String,
    /// Operating system.
    pub os: String,
    /// Binary interface; empty when the triple has none.
    pub abi: String,
}

/// A text reads as a triple when it has at least three dash-separated pieces.
pub open spec fn is_triple_text(s: Seq<char>) -> bool {
    dash_split(s).len() >= 3
}

/// The text of a triple: `arch-vendor-os`, followed by `-abi` when the abi is not empty.
pub open spec fn triple_text(arch: Seq<char>, vendor: Seq<char>, os: Seq<char>, abi: Seq<char>) -> Seq<
    char,
> {
    arch + seq!['-'] + vendor + seq!['-'] + os + (if abi.len() == 0 {
        Seq::<char>::empty()
    } else {
        seq!['-'] + abi
    })
}

impl TargetTriple {
    /// The triple's text, as its `to_string` writes it.
    pub open spec fn text(&self) -> Seq<char> {
        triple_text(self.arch@, self.vendor@, self.os@, self.abi@)
    }

    /// The fields are the first three dash-separated pieces of `s`, and the fourth
    /// piece (or nothing) as the abi; further pieces are dropped.
    pub open spec fn parsed_from(&self, s: Seq<char>) -> bool {
        let parts = dash_split(s);
        &&& self.arch@ == parts[0]
        &&& self.vendor@ == parts[1]
        &&& self.os@ == parts[2]
        &&& self.abi@ == (if parts.len() > 3 {
            parts[3]
        } else {
            Seq::<char>::empty()
        })
    }

    /// Reads a triple from its text.
    pub fn from_string(value: String) -> (r: TargetTriple)
        requires
            is_triple_text(value@),
        ensures
            r.parsed_from(value@),
    {
        let parts = split_dashes(value.as_str());
        assert(parts.deep_view().len() == parts@.len());
        assert(parts.deep_view()[0] == parts@[0]@);
        assert(parts.deep_view()[1] == parts@[1]@);
        assert(parts.deep_view()[2] == parts@[2]@);
        let arch = parts[0].clone();
        let vendor = parts[1].clone();
        let os = parts[2].clone();
        let abi = if parts.len() > 3 {
            assert(parts.deep_view()[3] == parts@[3]@);
            parts[3].clone()
        } else {
            String::new()
        };
        TargetTriple { arch, vendor, os, abi }
    }

    /// Reads a triple from its text.
    pub fn new(s: &str) -> (r: TargetTriple)
        requires
            is_triple_text(s@),
        ensures
            r.parsed_from(s@),
    {
        TargetTriple::from_string(String::from_str(s))
    }

    /// The triple's text.
    pub fn to_string(&self) -> (r: String)
        ensures
            r@ == self.text(),
    {
        proof {
            reveal_strlit("-");
        }
        let mut r = self.arch.clone();
        r.append("-");
        r.append(self.vendor.as_str());
        r.append("-");
        r.append(self.os.as_str());
        if !self.abi.as_str().is_empty() {
            r.append("-");
            r.append(self.abi.as_str());
        }
        assert(r@ =~= self.text());
        r
    }
}

/// Reading back the text of a triple whose fields hold no dash gives the same
/// fields: `TargetTriple::new(&t.to_string())` equals `t`.
pub proof fn lemma_triple_text_roundtrip(t: TargetTriple, r: TargetTriple)
    requires
        !t.arch@.contains('-'),
        !t.vendor@.contains('-'),
        !t.os@.contains('-'),
        !t.abi@.contains('-'),
        r.parsed_from(t.text()),
    ensures
        is_triple_text(t.text()),
        r.arch@ == t.arch@,
        r.vendor@ == t.vendor@,
        r.os@ == t.os@,
        r.abi@ == t.abi@,
{
    let a = t.arch@;
    let v = t.vendor@;
    let o = t.os@;
    let b = t.abi@;
    lemma_dash_split_plain(a);
    lemma_dash_split_dash_then(a, v);
    lemma_dash_split_dash_then(a + seq!['-'] + v, o);
    let x = a + seq!['-'] + v + seq!['-'] + o;
    assert(dash_split(x) =~= seq![a, v, o]);
    if b.len() == 0 {
        assert(t.text() =~= x);
    } else {
        lemma_dash_split_dash_then(x, b);
        assert(t.text() =~= x + seq!['-'] + b);
        assert(dash_split(t.text()) =~= seq![a, v, o, b]);
    }
}

/// Writing out a triple read from a text gives the text back, when the text has
/// three pieces, or four with a non-empty last one.
pub proof fn lemma_triple_parse_display(s: Seq<char>, r: TargetTriple)
    requires
        dash_split(s).len() == 3 || (dash_split(s).len() == 4 && dash_split(s)[3].len() > 0),
        r.parsed_from(s),
    ensures
        r.text() == s,
{
    let p = dash_split(s);
    lemma_dash_join_split(s);
    let q1 = seq![p[0]];
    let q2 = seq![p[0], p[1]];
    let q3 = seq![p[0], p[1], p[2]];
    assert(dash_join(q1) == p[0]);
    assert(q2.drop_last() =~= q1);
    assert(dash_join(q2) == p[0] + seq!['-'] + p[1]);
    assert(q3.drop_last() =~= q2);
    assert(dash_join(q3) == p[0] + seq!['-'] + p[1] + seq!['-'] + p[2]);
    if p.len() == 3 {
        assert(p =~= q3);
        assert(r.text() =~= s);
    } else {
        assert(p.drop_last() =~= q3);
        assert(dash_join(p) == dash_join(q3) + seq!['-'] + p[3]);
        assert(r.text() =~= s);
    }
}

/// Whether `s` has the three pieces that `TargetTriple::new` needs.
pub fn parses_as_triple(s: &str) -> (r: bool)
    ensures
        r == is_triple_text(s@),
{
    let parts = split_dashes(s);
    assert(parts.deep_view().len() == parts@.len());
    parts.len() >= 3
}

/// The operating system that the compiler itself runs on.
#[derive(Clone, Copy, Debug, PartialEq, Eq, Structural)]
pub enum HostOs {
    Windows,
    Linux,
    MacOs,
    Other,
}

/// The architecture that the compiler itself runs on.
#[derive(Clone, Copy, Debug, PartialEq, Eq, Structural)]
pub enum HostArch {
    X86_64,
    Aarch64,
    Other,
}

/// The default target of each host the compiler is built for.
pub open spec fn default_target_spec(os: HostOs, arch: HostArch) -> Option<Seq<char>> {
    match (os, arch) {
        (HostOs::Windows, HostArch::X86_64) => Some("x86_64-pc-windows-gnu"@),
        (HostOs::Linux, HostArch::Aarch64) => Some("aarch64-unknown-linux-gnu"@),
        (HostOs::Linux, HostArch::X86_64) => Some("x86_64-unknown-linux-gnu"@),
        (HostOs::MacOs, HostArch::Aarch64) => Some("aarch64-apple-darwin"@),
        (HostOs::MacOs, HostArch::X86_64) => Some("x86_64-apple-darwin"@),
        _ => None,
    }
}

/// Every host that runs Windows on x86_64, or Linux or macOS on x86_64 or
/// aarch64, has a default target; only other hosts have none. On macOS the
/// default target is an Apple Darwin triple of the host's architecture.
pub proof fn lemma_supported_hosts(os: HostOs, arch: HostArch)
    ensures
        ((os == HostOs::Windows && arch == HostArch::X86_64) || ((os == HostOs::Linux || os
            == HostOs::MacOs) && (arch == HostArch::X86_64 || arch == HostArch::Aarch64)))
            <==> default_target_spec(os, arch) is Some,
        (os == HostOs::MacOs && arch == HostArch::Aarch64) ==> default_target_spec(os, arch) == Some(
            "aarch64-apple-darwin"@,
        ),
        (os == HostOs::MacOs && arch == HostArch::X86_64) ==> default_target_spec(os, arch) == Some(
            "x86_64-apple-darwin"@,
        ),
{
}

/// Whether the compiler has a default target on this host.
pub fn host_is_supported(os: HostOs, arch: HostArch) -> (r: bool)
    ensures
        r == default_target_spec(os, arch) is Some,
{
    match (os, arch) {
        (HostOs::Windows, HostArch::X86_64) => true,
        (HostOs::Linux, HostArch::Aarch64) => true,
        (HostOs::Linux, HostArch::X86_64) => true,
        (HostOs::MacOs, HostArch::Aarch64) => true,
        (HostOs::MacOs, HostArch::X86_64) => true,
        _ => false,
    }
}

/// The default target triple of the host.
pub fn get_default_target(os: HostOs, arch: HostArch) -> (r: &'static str)
    requires
        default_target_spec(os, arch) is Some,
    ensures
        Some(r@) == default_target_spec(os, arch),
{
    match (os, arch) {
        (HostOs::Windows, HostArch::X86_64) => "x86_64-pc-windows-gnu",
        (HostOs::Linux, HostArch::Aarch64) => "aarch64-unknown-linux-gnu",
        (HostOs::Linux, HostArch::X86_64) => "x86_64-unknown-linux-gnu",
        (HostOs::MacOs, HostArch::Aarch64) => "aarch64-apple-darwin",
        _ => "x86_64-apple-darwin",
    }
}

/// The target that the command line asks for, or the host's default.
pub open spec fn chosen_target(arg: Option<Args>, os: HostOs, arch: HostArch) -> Seq<char> {
    match arg {
        Some(args) => if args.target_triple@.len() == 0 {
            default_target_spec(os, arch).unwrap()
        } else {
            args.target_triple@
        },
        None => default_target_spec(os, arch).unwrap(),
    }
}

/// Determines the target triple: the one on the command line when it is not
/// empty, else the host's default.
pub fn get_target_triple_or_default(arg: &Option<Args>, os: HostOs, arch: HostArch) -> (r: String)
    requires
        default_target_spec(os, arch) is Some,
    ensures
        r@ == chosen_target(*arg, os, arch),
{
    let default_target = get_default_target(os, arch);
    if let Some(args) = arg {
        if args.target_triple.as_str().is_empty() {
            String::from_str(default_target)
        } else {
            args.target_triple.clone()
        }
    } else {
        String::from_str(default_target)
    }
}

} // verus!
