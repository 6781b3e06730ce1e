use vstd::prelude::*;

use crate::args::Args;
use crate::text::{dash_split, is_blank, is_blank_spec, str_eq, strip_lib_prefix, strip_lib_spec};
use crate::text::{lemma_dash_split_dash_then, lemma_dash_split_plain};
use crate::triple::{default_target_spec, is_triple_text, HostArch, HostOs, TargetTriple};

verus! {

/// Appends one owned copy of `s`.
fn push_str(args: &mut Vec<String>, s: &str)
    ensures
        final(args).deep_view() == old(args).deep_view().push(s@),
{
    let ghost before = args.deep_view();
    args.push(String::from_str(s));
    assert(args.deep_view() =~= before.push(s@));
}

/// The concatenation of three texts.
fn join3(a: &str, b: &str, c: &str) -> (r: String)
    ensures
        r@ == a@ + b@ + c@,
{
    let mut r = String::from_str(a);
    r.append(b);
    r.append(c);
    r
}

/// The flag that each binary interface uses for an argument of the linker:
/// `output` (the output file), `linkdir` (a library directory) and `link`
/// (a library).
pub open spec fn abi_arg_spec(abi: Seq<char>, name: Seq<char>) -> Option<Seq<char>> {
    if abi == "msvc"@ {
        if name == "linkdir"@ {
            Some("/LIBPATH"@)
        } else if name == "link"@ {
            Some(""@)
        } else if name == "output"@ {
            Some("/OUT"@)
        } else {
            None
        }
    } else if abi == "gnu"@ {
        if name == "linkdir"@ {
            Some("-L"@)
        } else if name == "link"@ {
            Some("-l"@)
        } else if name == "output"@ {
            Some("-o"@)
        } else {
            None
        }
    } else {
        None
    }
}

/// Looks up the flag of a binary interface for an argument of the linker.
pub fn abi_arg(abi: &str, name: &str) -> (r: Option<&'static str>)
    ensures
        r matches Some(f) ==> abi_arg_spec(abi@, name@) == Some(f@),
        r is None ==> abi_arg_spec(abi@, name@) is None,
{
    if str_eq(abi, "msvc") {
        if str_eq(name, "linkdir") {
            Some("/LIBPATH")
        } else if str_eq(name, "link") {
            Some("")
        } else if str_eq(name, "output") {
            Some("/OUT")
        } else {
            None
        }
    } else if str_eq(abi, "gnu") {
        if str_eq(name, "linkdir") {
            Some("-L")
        } else if str_eq(name, "link") {
            Some("-l")
        } else if str_eq(name, "output") {
            Some("-o")
        } else {
            None
        }
    } else {
        None
    }
}

/// The flags with which the linker is told the output file, a library
/// directory and a library.
#[derive(Clone, Debug)]
pub struct LinkerConfig {
    pub output_flag: String,
    pub linkdir_flag: String,
    pub library_flag: String,
}

/// What can go wrong while preparing to link.
#[derive(Clone, Debug)]
pub enum LinkError {
    /// No flags are known for this binary interface.
    UnsupportedAbi(String),
    /// No linker is known for this binary interface.
    LinkerNotFound(String),
}

impl LinkError {
    /// The text of the error.
    pub open spec fn message_spec(&self) -> Seq<char> {
        match self {
            LinkError::UnsupportedAbi(abi) => "Unsupported ABI: "@ + abi@,
            LinkError::LinkerNotFound(abi) => "compiler for abi "@ + abi@ + " not found"@,
        }
    }

    /// The text of the error.
    pub fn message(&self) -> (r: String)
        ensures
            r@ == self.message_spec(),
    {
        match self {
            LinkError::UnsupportedAbi(abi) => {
                let mut r = String::from_str("Unsupported ABI: ");
                r.append(abi.as_str());
                r
            },
            LinkError::LinkerNotFound(abi) => join3("compiler for abi ", abi.as_str(), " not found"),
        }
    }
}

/// The binary interface whose flags a triple links with: `gnu` when the triple
/// has no abi or comes from Apple, else its abi.
pub open spec fn linker_key(t: TargetTriple) -> Seq<char> {
    if t.abi@.len() == 0 || t.vendor@ == "apple"@ {
        "gnu"@
    } else {
        t.abi@
    }
}

/// Finds the linker flags for a triple.
pub fn get_linker_config(target_triple: &TargetTriple) -> (r: Result<LinkerConfig, LinkError>)
    ensures
        r is Ok <==> (linker_key(*target_triple) == "gnu"@ || linker_key(*target_triple) == "msvc"@),
        r matches Ok(c) ==> {
            &&& Some(c.output_flag@) == abi_arg_spec(linker_key(*target_triple), "output"@)
            &&& Some(c.linkdir_flag@) == abi_arg_spec(linker_key(*target_triple), "linkdir"@)
            &&& Some(c.library_flag@) == abi_arg_spec(linker_key(*target_triple), "link"@)
        },
        r matches Err(e) ==> (e matches LinkError::UnsupportedAbi(a) && a@ == target_triple.abi@),
{
    proof {
        reveal_strlit("gnu");
        reveal_strlit("msvc");
    }
    let key: &str = if target_triple.abi.as_str().is_empty() || str_eq(
        target_triple.vendor.as_str(),
        "apple",
    ) {
        "gnu"
    } else {
        target_triple.abi.as_str()
    };
    let output = abi_arg(key, "output");
    let linkdir = abi_arg(key, "linkdir");
    let link = abi_arg(key, "link");
    match (output, linkdir, link) {
        (Some(o), Some(d), Some(l)) => Ok(
            LinkerConfig {
                output_flag: String::from_str(o),
                linkdir_flag: String::from_str(d),
                library_flag: String::from_str(l),
            },
        ),
        _ => Err(LinkError::UnsupportedAbi(target_triple.abi.clone())),
    }
}

/// The linker program that a triple is linked with.
#[derive(Clone, Copy, Debug, PartialEq, Eq, Structural)]
pub enum Linker {
    /// `clang`, for Apple targets.
    Clang,
    /// The MSVC `link.exe`, found through the Windows registry, else `link`.
    MsvcLink,
    /// `gcc`.
    Gcc,
}

/// The linker of a triple: `clang` for macOS or Apple, else by the abi.
pub open spec fn choose_linker_spec(t: TargetTriple) -> Option<Linker> {
    if t.os@ == "macos"@ || t.vendor@ == "apple"@ {
        Some(Linker::Clang)
    } else if t.abi@ == "msvc"@ {
        Some(Linker::MsvcLink)
    } else if t.abi@ == "gnu"@ {
        Some(Linker::Gcc)
    } else {
        None
    }
}

/// Chooses the linker for a triple.
pub fn choose_linker(target_triple: &TargetTriple) -> (r: Option<Linker>)
    ensures
        r == choose_linker_spec(*target_triple),
{
    if str_eq(target_triple.os.as_str(), "macos") || str_eq(target_triple.vendor.as_str(), "apple") {
        return Some(Linker::Clang);
    }
    if str_eq(target_triple.abi.as_str(), "msvc") {
        Some(Linker::MsvcLink)
    } else if str_eq(target_triple.abi.as_str(), "gnu") {
        Some(Linker::Gcc)
    } else {
        None
    }
}

/// The flags that a GNU-style link adds on each host.
pub open spec fn platform_flags(os: HostOs) -> Seq<Seq<char>> {
    match os {
        HostOs::Linux => seq!["-static"@, "-lc"@, "-Wl,-z,noexecstack"@],
        HostOs::Windows => seq!["-static"@, "-lmsvcrt"@],
        HostOs::MacOs => seq!["-fPIC"@],
        HostOs::Other => Seq::<Seq<char>>::empty(),
    }
}

/// Adds the host's flags for a GNU-style link.
pub fn add_platform_specific_flags(args: &mut Vec<String>, os: HostOs)
    ensures
        final(args).deep_view() == old(args).deep_view() + platform_flags(os),
{
    let ghost before = args.deep_view();
    match os {
        HostOs::Linux => {
            push_str(args, "-static");
            push_str(args, "-lc");
            push_str(args, "-Wl,-z,noexecstack");
        },
        HostOs::Windows => {
            push_str(args, "-static");
            push_str(args, "-lmsvcrt");
        },
        HostOs::MacOs => {
            push_str(args, "-fPIC");
        },
        HostOs::Other => {},
    }
    assert(args.deep_view() =~= before + platform_flags(os));
}

/// A single path component that reads the same on every platform: not empty,
/// without `/`, `\` or `:`, and neither `.` nor `..`.
pub open spec fn is_plain_name(s: Seq<char>) -> bool {
    &&& s.len() > 0
    &&& !s.contains('/')
    &&& !s.contains('\\')
    &&& !s.contains(':')
    &&& s != seq!['.']
    &&& s != seq!['.', '.']
}

/// The pieces of `s` between the slashes, in order, empty pieces kept.
pub open spec fn slash_split(s: Seq<char>) -> Seq<Seq<char>>
    decreases s.len(),
{
    if s.len() == 0 {
        seq![Seq::<char>::empty()]
    } else {
        let prev = slash_split(s.drop_last());
        if s.last() == '/' {
            prev.push(Seq::<char>::empty())
        } else {
            prev.update(prev.len() - 1, prev.last().push(s.last()))
        }
    }
}

/// A piece of a directory: a plain name or `..`.
pub open spec fn is_dir_piece(p: Seq<char>) -> bool {
    is_plain_name(p) || p == seq!['.', '.']
}

/// A relative directory that reads the same on every platform: one or more
/// pieces, each a plain name or `..`, joined by single `/`.
pub open spec fn is_relative_dir(d: Seq<char>) -> bool {
    forall|i: int| 0 <= i < slash_split(d).len() ==> is_dir_piece(#[trigger] slash_split(d)[i])
}

/// A directory that reads the same on every platform: a relative one, or one
/// `/` followed by a relative one.
pub open spec fn is_plain_dir(d: Seq<char>) -> bool {
    ||| is_relative_dir(d)
    ||| (d.len() > 1 && d[0] == '/' && is_relative_dir(d.drop_first()))
}

/// `path` is the directory `dir` and the plain name `name` joined by `/`.
pub open spec fn is_dir_and_name(path: Seq<char>, dir: Seq<char>, name: Seq<char>) -> bool {
    &&& is_plain_dir(dir)
    &&& is_plain_name(name)
    &&& path == dir + seq!['/'] + name
}

/// The position of the last `.` among the first `n` characters, or -1.
pub open spec fn last_dot(s: Seq<char>, n: int) -> int
    decreases n,
{
    if n <= 0 {
        -1
    } else if s[n - 1] == '.' {
        n - 1
    } else {
        last_dot(s, n - 1)
    }
}

/// The stem of a file name: the part before its last `.`; the whole name when it
/// has no `.`, or when its only `.` is its first character.
pub open spec fn file_stem_of(name: Seq<char>) -> Seq<char> {
    let i = last_dot(name, name.len() as int);
    if i <= 0 {
        name
    } else {
        name.take(i)
    }
}

/// The text of an optional string.
pub open spec fn opt_text(o: Option<String>) -> Option<Seq<char>> {
    match o {
        Some(s) => Some(s@),
        None => None,
    }
}

/// The directory part of a path (`Path::parent`).
///
/// States what holds on every platform: an empty path has no parent, a plain
/// name has the empty directory, and `dir/name`, with `dir` made of plain names
/// and `..` and perhaps one leading `/`, has `dir`. Other paths follow the
/// platform's path rules, which are not stated.
#[verifier::external_body]
fn path_parent(path: &str) -> (r: Option<String>)
    ensures
        path@.len() == 0 ==> r is None,
        is_plain_name(path@) ==> opt_text(r) == Some(Seq::<char>::empty()),
        forall|dir: Seq<char>, name: Seq<char>| #[trigger]
            is_dir_and_name(path@, dir, name) ==> opt_text(r) == Some(dir),
{
    match std::path::Path::new(path).parent() {
        Some(p) => Some(p.to_string_lossy().into_owned()),
        None => None,
    }
}

/// The last component of a path (`Path::file_name`).
///
/// States what holds on every platform: the empty path has no file name, a
/// plain name is its own file name, and `dir/name` (as for `path_parent`) has
/// `name`. Other paths follow the platform's path rules, which are not stated.
#[verifier::external_body]
fn path_file_name(path: &str) -> (r: Option<String>)
    ensures
        path@.len() == 0 ==> r is None,
        is_plain_name(path@) ==> opt_text(r) == Some(path@),
        forall|dir: Seq<char>, name: Seq<char>| #[trigger]
            is_dir_and_name(path@, dir, name) ==> opt_text(r) == Some(name),
{
    match std::path::Path::new(path).file_name() {
        Some(p) => Some(p.to_string_lossy().into_owned()),
        None => None,
    }
}

/// The last component of a path without its extension (`Path::file_stem`).
///
/// States what holds on every platform, by the documented rule for the stem
/// of a file name: none for the empty path; for a plain name, and for
/// `dir/name` (as for `path_parent`), the stem of the name. Other paths follow
/// the platform's path rules, which are not stated.
#[verifier::external_body]
fn path_file_stem(path: &str) -> (r: Option<String>)
    ensures
        path@.len() == 0 ==> r is None,
        is_plain_name(path@) ==> opt_text(r) == Some(file_stem_of(path@)),
        forall|dir: Seq<char>, name: Seq<char>| #[trigger]
            is_dir_and_name(path@, dir, name) ==> opt_text(r) == Some(file_stem_of(name)),
{
    match std::path::Path::new(path).file_stem() {
        Some(p) => Some(p.to_string_lossy().into_owned()),
        None => None,
    }
}

/// `lib` holds `path` and those parts of it that read the same on every
/// platform.
pub open spec fn describes_library(lib: LibraryPath, path: Seq<char>) -> bool {
    &&& lib.path@ == path
    &&& path.len() == 0 ==> {
        &&& lib.parent is None
        &&& lib.file_name is None
        &&& lib.file_stem is None
    }
    &&& is_plain_name(path) ==> {
        &&& opt_text(lib.parent) == Some(Seq::<char>::empty())
        &&& opt_text(lib.file_name) == Some(path)
        &&& opt_text(lib.file_stem) == Some(file_stem_of(path))
    }
    &&& forall|dir: Seq<char>, name: Seq<char>| #[trigger]
        is_dir_and_name(path, dir, name) ==> {
            &&& opt_text(lib.parent) == Some(dir)
            &&& opt_text(lib.file_name) == Some(name)
            &&& opt_text(lib.file_stem) == Some(file_stem_of(name))
        }
}

/// A library named on the command line, with the parts of its path.
#[derive(Clone, Debug)]
pub struct LibraryPath {
    /// The text as given.
    pub path: String,
    /// Its directory, if it has one.
    pub parent: Option<String>,
    /// Its last component, if it has one.
    pub file_name: Option<String>,
    /// Its last component without extension, if it has one.
    pub file_stem: Option<String>,
}

impl LibraryPath {
    /// Splits a library's path into its parts.
    pub fn of(path: &str) -> (r: LibraryPath)
        ensures
            describes_library(r, path@),
    {
        LibraryPath {
            path: String::from_str(path),
            parent: path_parent(path),
            file_name: path_file_name(path),
            file_stem: path_file_stem(path),
        }
    }
}

/// The libraries that the command line names (none without a command line).
pub open spec fn libraries_of(arg: Option<Args>) -> Seq<String> {
    match arg {
        Some(args) => args.link_with@,
        None => Seq::<String>::empty(),
    }
}

/// `libs` describes, in order, the libraries that the command line names.
pub open spec fn describes_libraries(libs: Seq<LibraryPath>, arg: Option<Args>) -> bool {
    &&& libs.len() == libraries_of(arg).len()
    &&& forall|i: int|
        0 <= i < libs.len() ==> describes_library(#[trigger] libs[i], libraries_of(arg)[i]@)
}

/// Splits the paths of the libraries that the command line names.
pub fn library_paths(arg: &Option<Args>) -> (r: Vec<LibraryPath>)
    ensures
        describes_libraries(r@, *arg),
{
    let mut r: Vec<LibraryPath> = Vec::new();
    if let Some(args) = arg {
        let n = args.link_with.len();
        let mut i: usize = 0;
        while i < n
            invariant
                n == args.link_with@.len(),
                *arg == Some(*args),
                i <= n,
                r@.len() == i,
                forall|j: int|
                    0 <= j < i ==> describes_library(#[trigger] r@[j], args.link_with@[j]@),
            decreases n - i,
        {
            r.push(LibraryPath::of(args.link_with[i].as_str()));
            i = i + 1;
        }
    }
    r
}

/// A library-directory argument pair for each library that has a directory.
pub open spec fn search_dir_args(flag: Seq<char>, libs: Seq<LibraryPath>) -> Seq<Seq<char>>
    decreases libs.len(),
{
    if libs.len() == 0 {
        Seq::<Seq<char>>::empty()
    } else {
        search_dir_args(flag, libs.drop_last()) + match libs.last().parent {
            Some(p) => seq![flag, p@],
            None => Seq::<Seq<char>>::empty(),
        }
    }
}

/// For MSVC, a library-path argument `flag:dir` for each library that has a
/// directory, the form in which `link.exe` reads a search path.
pub open spec fn msvc_search_dir_args(flag: Seq<char>, libs: Seq<LibraryPath>) -> Seq<Seq<char>>
    decreases libs.len(),
{
    if libs.len() == 0 {
        Seq::<Seq<char>>::empty()
    } else {
        msvc_search_dir_args(flag, libs.drop_last()) + match libs.last().parent {
            Some(p) => seq![flag + ":"@ + p@],
            None => Seq::<Seq<char>>::empty(),
        }
    }
}

/// For MSVC, each non-blank library by its file name (or as given).
pub open spec fn msvc_library_names(libs: Seq<LibraryPath>) -> Seq<Seq<char>>
    decreases libs.len(),
{
    if libs.len() == 0 {
        Seq::<Seq<char>>::empty()
    } else {
        let lib = libs.last();
        msvc_library_names(libs.drop_last()) + if is_blank_spec(lib.path@) {
            Seq::<Seq<char>>::empty()
        } else {
            seq![
                match lib.file_name {
                    Some(n) => n@,
                    None => lib.path@,
                },
            ]
        }
    }
}

/// For GNU, each non-blank library as the library flag followed by its file
/// stem (or the text as given) without a leading `lib`.
pub open spec fn gnu_library_flags(flag: Seq<char>, libs: Seq<LibraryPath>) -> Seq<Seq<char>>
    decreases libs.len(),
{
    if libs.len() == 0 {
        Seq::<Seq<char>>::empty()
    } else {
        let lib = libs.last();
        gnu_library_flags(flag, libs.drop_last()) + if is_blank_spec(lib.path@) {
            Seq::<Seq<char>>::empty()
        } else {
            seq![
                flag + strip_lib_spec(
                    match lib.file_stem {
                        Some(s) => s@,
                        None => lib.path@,
                    },
                ),
            ]
        }
    }
}

/// Adds the directory of each library that has one, after the directory flag.
fn add_search_dirs(args: &mut Vec<String>, flag: &String, libs: &Vec<LibraryPath>)
    ensures
        final(args).deep_view() == old(args).deep_view() + search_dir_args(flag@, libs@),
{
    let ghost before = args.deep_view();
    let n = libs.len();
    let mut i: usize = 0;
    assert(libs@.take(0) =~= Seq::<LibraryPath>::empty());
    assert(args.deep_view() =~= before + search_dir_args(flag@, libs@.take(0)));
    while i < n
        invariant
            n == libs@.len(),
            i <= n,
            args.deep_view() == before + search_dir_args(flag@, libs@.take(i as int)),
        decreases n - i,
    {
        assert(libs@.take(i + 1).drop_last() =~= libs@.take(i as int));
        assert(libs@.take(i + 1).last() == libs@[i as int]);
        let ghost mid = args.deep_view();
        match &libs[i].parent {
            Some(p) => {
                push_str(args, flag.as_str());
                push_str(args, p.as_str());
                assert(args.deep_view() =~= mid + seq![flag@, p@]);
            },
            None => {},
        }
        assert(args.deep_view() =~= before + search_dir_args(flag@, libs@.take(i + 1)));
        i = i + 1;
    }
    assert(libs@.take(n as int) =~= libs@);
}

/// Adds `flag:dir` for the directory of each library that has one.
fn add_msvc_search_dirs(args: &mut Vec<String>, flag: &String, libs: &Vec<LibraryPath>)
    ensures
        final(args).deep_view() == old(args).deep_view() + msvc_search_dir_args(flag@, libs@),
{
    let ghost before = args.deep_view();
    let n = libs.len();
    let mut i: usize = 0;
    assert(libs@.take(0) =~= Seq::<LibraryPath>::empty());
    assert(args.deep_view() =~= before + msvc_search_dir_args(flag@, libs@.take(0)));
    while i < n
        invariant
            n == libs@.len(),
            i <= n,
            args.deep_view() == before + msvc_search_dir_args(flag@, libs@.take(i as int)),
        decreases n - i,
    {
        assert(libs@.take(i + 1).drop_last() =~= libs@.take(i as int));
        assert(libs@.take(i + 1).last() == libs@[i as int]);
        let ghost mid = args.deep_view();
        match &libs[i].parent {
            Some(p) => {
                let dir = join3(flag.as_str(), ":", p.as_str());
                push_str(args, dir.as_str());
                assert(args.deep_view() =~= mid + seq![flag@ + ":"@ + p@]);
            },
            None => {},
        }
        assert(args.deep_view() =~= before + msvc_search_dir_args(flag@, libs@.take(i + 1)));
        i = i + 1;
    }
    assert(libs@.take(n as int) =~= libs@);
}

/// Adds the libraries that the command line names, MSVC style.
pub fn add_user_libraries_msvc(
    args: &mut Vec<String>,
    linker_config: &LinkerConfig,
    libs: &Vec<LibraryPath>,
)
    ensures
        final(args).deep_view() == old(args).deep_view() + msvc_search_dir_args(
            linker_config.linkdir_flag@,
            libs@,
        ) + msvc_library_names(libs@),
{
    add_msvc_search_dirs(args, &linker_config.linkdir_flag, libs);
    let ghost before = args.deep_view();
    let n = libs.len();
    let mut i: usize = 0;
    assert(libs@.take(0) =~= Seq::<LibraryPath>::empty());
    assert(args.deep_view() =~= before + msvc_library_names(libs@.take(0)));
    while i < n
        invariant
            n == libs@.len(),
            i <= n,
            args.deep_view() == before + msvc_library_names(libs@.take(i as int)),
        decreases n - i,
    {
        assert(libs@.take(i + 1).drop_last() =~= libs@.take(i as int));
        assert(libs@.take(i + 1).last() == libs@[i as int]);
        let lib = &libs[i];
        if !is_blank(lib.path.as_str()) {
            match &lib.file_name {
                Some(name) => push_str(args, name.as_str()),
                None => push_str(args, lib.path.as_str()),
            }
        }
        assert(args.deep_view() =~= before + msvc_library_names(libs@.take(i + 1)));
        i = i + 1;
    }
    assert(libs@.take(n as int) =~= libs@);
}

/// Adds the libraries that the command line names, GNU style.
pub fn add_user_libraries_gnu(
    args: &mut Vec<String>,
    linker_config: &LinkerConfig,
    libs: &Vec<LibraryPath>,
)
    ensures
        final(args).deep_view() == old(args).deep_view() + search_dir_args(
            linker_config.linkdir_flag@,
            libs@,
        ) + gnu_library_flags(linker_config.library_flag@, libs@),
{
    add_search_dirs(args, &linker_config.linkdir_flag, libs);
    let ghost before = args.deep_view();
    let flag = &linker_config.library_flag;
    let n = libs.len();
    let mut i: usize = 0;
    assert(libs@.take(0) =~= Seq::<LibraryPath>::empty());
    assert(args.deep_view() =~= before + gnu_library_flags(flag@, libs@.take(0)));
    while i < n
        invariant
            n == libs@.len(),
            i <= n,
            flag == &linker_config.library_flag,
            args.deep_view() == before + gnu_library_flags(flag@, libs@.take(i as int)),
        decreases n - i,
    {
        assert(libs@.take(i + 1).drop_last() =~= libs@.take(i as int));
        assert(libs@.take(i + 1).last() == libs@[i as int]);
        let lib = &libs[i];
        if !is_blank(lib.path.as_str()) {
            let name = match &lib.file_stem {
                Some(stem) => strip_lib_prefix(stem.as_str()),
                None => strip_lib_prefix(lib.path.as_str()),
            };
            let mut arg = flag.clone();
            arg.append(name.as_str());
            let ghost mid = args.deep_view();
            args.push(arg);
            assert(args.deep_view() =~= mid.push(arg@));
        }
        assert(args.deep_view() =~= before + gnu_library_flags(flag@, libs@.take(i + 1)));
        i = i + 1;
    }
    assert(libs@.take(n as int) =~= libs@);
}

/// The directory of the runtime library under the compiler's directory.
pub open spec fn clib_path(compiler_dir: Seq<char>) -> Seq<char> {
    compiler_dir + "/include/clib"@
}

/// The MSVC machine flag of an architecture.
pub open spec fn msvc_machine(arch: Seq<char>) -> Seq<char> {
    if arch == "x86_64"@ {
        "/MACHINE:X64"@
    } else if arch == "x86"@ {
        "/MACHINE:X86"@
    } else {
        "/MACHINE:ARM64"@
    }
}

/// The MSVC console entry point of an architecture.
pub open spec fn msvc_entry(arch: Seq<char>) -> Seq<char> {
    if arch == "x86_64"@ {
        "mainCRTStartup"@
    } else {
        "_mainCRTStartup"@
    }
}

/// The linker's arguments for the static library, the output, the runtime
/// library and the libraries that the command line names.
pub open spec fn linker_args_spec(
    t: TargetTriple,
    lib_path: Seq<char>,
    output_path: Seq<char>,
    compiler_dir: Seq<char>,
    c: LinkerConfig,
    libs: Seq<LibraryPath>,
) -> Seq<Seq<char>> {
    if t.abi@ == "msvc"@ {
        seq![
            lib_path,
            c.output_flag@ + ":"@ + output_path,
            c.linkdir_flag@ + ":"@ + clib_path(compiler_dir),
            "libarc.lib"@,
            "legacy_stdio_definitions.lib"@,
            "/SUBSYSTEM:CONSOLE"@,
            "/DEFAULTLIB:msvcrt"@,
            msvc_machine(t.arch@),
            "/ENTRY:"@ + msvc_entry(t.arch@),
        ] + msvc_search_dir_args(c.linkdir_flag@, libs) + msvc_library_names(libs)
    } else {
        seq![
            lib_path,
            c.output_flag@,
            output_path,
            c.linkdir_flag@,
            clib_path(compiler_dir),
            c.library_flag@,
            "arc"@,
        ] + search_dir_args(c.linkdir_flag@, libs) + gnu_library_flags(c.library_flag@, libs)
    }
}

/// Adds the linker's arguments: MSVC style when the abi is `msvc`, GNU style otherwise.
pub fn build_linker_args(
    args: &mut Vec<String>,
    target_triple: &TargetTriple,
    lib_path: &str,
    output_path: &str,
    compiler_dir: &str,
    linker_config: &LinkerConfig,
    libs: &Vec<LibraryPath>,
)
    ensures
        final(args).deep_view() == old(args).deep_view() + linker_args_spec(
            *target_triple,
            lib_path@,
            output_path@,
            compiler_dir@,
            *linker_config,
            libs@,
        ),
{
    let ghost before = args.deep_view();
    let clib_path = join3(compiler_dir, "/include/clib", "");
    proof {
        reveal_strlit("");
        assert(clib_path@ =~= compiler_dir@ + "/include/clib"@);
    }
    if str_eq(target_triple.abi.as_str(), "msvc") {
        let machine = if str_eq(target_triple.arch.as_str(), "x86_64") {
            "/MACHINE:X64"
        } else if str_eq(target_triple.arch.as_str(), "x86") {
            "/MACHINE:X86"
        } else {
            "/MACHINE:ARM64"
        };
        let entry = if str_eq(target_triple.arch.as_str(), "x86_64") {
            "mainCRTStartup"
        } else {
            "_mainCRTStartup"
        };
        push_str(args, lib_path);
        let out = join3(linker_config.output_flag.as_str(), ":", output_path);
        push_str(args, out.as_str());
        let dir = join3(linker_config.linkdir_flag.as_str(), ":", clib_path.as_str());
        push_str(args, dir.as_str());
        push_str(args, "libarc.lib");
        push_str(args, "legacy_stdio_definitions.lib");
        push_str(args, "/SUBSYSTEM:CONSOLE");
        push_str(args, "/DEFAULTLIB:msvcrt");
        push_str(args, machine);
        let ent = join3("/ENTRY:", entry, "");
        proof {
            assert(ent@ =~= "/ENTRY:"@ + entry@);
        }
        push_str(args, ent.as_str());
        let ghost mid = args.deep_view();
        assert(mid =~= before + seq![
            lib_path@,
            linker_config.output_flag@ + ":"@ + output_path@,
            linker_config.linkdir_flag@ + ":"@ + clib_path@,
            "libarc.lib"@,
            "legacy_stdio_definitions.lib"@,
            "/SUBSYSTEM:CONSOLE"@,
            "/DEFAULTLIB:msvcrt"@,
            msvc_machine(target_triple.arch@),
            "/ENTRY:"@ + msvc_entry(target_triple.arch@),
        ]);
        add_user_libraries_msvc(args, linker_config, libs);
    } else {
        push_str(args, lib_path);
        push_str(args, linker_config.output_flag.as_str());
        push_str(args, output_path);
        push_str(args, linker_config.linkdir_flag.as_str());
        push_str(args, clib_path.as_str());
        push_str(args, linker_config.library_flag.as_str());
        push_str(args, "arc");
        let ghost mid = args.deep_view();
        assert(mid =~= before + seq![
            lib_path@,
            linker_config.output_flag@,
            output_path@,
            linker_config.linkdir_flag@,
            clib_path@,
            linker_config.library_flag@,
            "arc"@,
        ]);
        add_user_libraries_gnu(args, linker_config, libs);
    }
    assert(args.deep_view() =~= before + linker_args_spec(
        *target_triple,
        lib_path@,
        output_path@,
        compiler_dir@,
        *linker_config,
        libs@,
    ));
}

/// The debug-information flag: `-g` for GNU, `/Zi` for MSVC, when asked for.
pub open spec fn debug_flags(t: TargetTriple, arg: Option<Args>) -> Seq<Seq<char>> {
    let debug = arg matches Some(a) && a.debug_info;
    if t.abi@ == "gnu"@ && debug {
        seq!["-g"@]
    } else if t.abi@ == "msvc"@ && debug {
        seq!["/Zi"@]
    } else {
        Seq::<Seq<char>>::empty()
    }
}

/// The whole argument list of the link: debug flag, linker arguments, and the
/// host's flags when the abi is `gnu`.
pub open spec fn link_args_spec(
    t: TargetTriple,
    lib_path: Seq<char>,
    output_path: Seq<char>,
    compiler_dir: Seq<char>,
    c: LinkerConfig,
    arg: Option<Args>,
    libs: Seq<LibraryPath>,
    os: HostOs,
) -> Seq<Seq<char>> {
    debug_flags(t, arg) + linker_args_spec(t, lib_path, output_path, compiler_dir, c, libs) + (
    if t.abi@ == "gnu"@ {
        platform_flags(os)
    } else {
        Seq::<Seq<char>>::empty()
    })
}

/// A linker to run and the arguments to run it with.
#[derive(Clone, Debug)]
pub struct LinkCommand {
    pub linker: Linker,
    pub args: Vec<String>,
}

/// Prepares the link of the static library into an executable, from the parts
/// of the paths of the libraries that the command line names.
pub fn link_command(
    target_triple: &TargetTriple,
    lib_path: &str,
    output_path: &str,
    compiler_dir: &str,
    linker_config: &LinkerConfig,
    arg: &Option<Args>,
    libs: &Vec<LibraryPath>,
    os: HostOs,
) -> (r: Result<LinkCommand, LinkError>)
    ensures
        r is Ok <==> choose_linker_spec(*target_triple) is Some,
        r matches Ok(cmd) ==> {
            &&& Some(cmd.linker) == choose_linker_spec(*target_triple)
            &&& cmd.args.deep_view() == link_args_spec(
                *target_triple,
                lib_path@,
                output_path@,
                compiler_dir@,
                *linker_config,
                *arg,
                libs@,
                os,
            )
        },
        r matches Err(e) ==> (e matches LinkError::LinkerNotFound(a) && a@ == target_triple.abi@),
{
    let linker = match choose_linker(target_triple) {
        Some(l) => l,
        None => {
            return Err(LinkError::LinkerNotFound(target_triple.abi.clone()));
        },
    };
    let mut args: Vec<String> = Vec::new();
    let debug = match arg {
        Some(a) => a.debug_info,
        None => false,
    };
    let is_gnu = str_eq(target_triple.abi.as_str(), "gnu");
    if is_gnu && debug {
        push_str(&mut args, "-g");
    } else if str_eq(target_triple.abi.as_str(), "msvc") && debug {
        push_str(&mut args, "/Zi");
    }
    assert(args.deep_view() =~= debug_flags(*target_triple, *arg));
    build_linker_args(
        &mut args,
        target_triple,
        lib_path,
        output_path,
        compiler_dir,
        linker_config,
        libs,
    );
    if is_gnu {
        add_platform_specific_flags(&mut args, os);
    }
    assert(args.deep_view() =~= link_args_spec(
        *target_triple,
        lib_path@,
        output_path@,
        compiler_dir@,
        *linker_config,
        *arg,
        libs@,
        os,
    ));
    Ok(LinkCommand { linker, args })
}

/// Prepares the link of the static library into an executable: the linker to
/// run and its arguments, or the error when no linker is known for the abi.
/// The libraries' directories and names come from the platform's path rules.
pub fn link_executable(
    target_triple: &TargetTriple,
    lib_path: &str,
    output_path: &str,
    compiler_dir: &str,
    linker_config: &LinkerConfig,
    arg: &Option<Args>,
    os: HostOs,
) -> (r: Result<LinkCommand, LinkError>)
    ensures
        r is Ok <==> choose_linker_spec(*target_triple) is Some,
        r matches Ok(cmd) ==> {
            &&& Some(cmd.linker) == choose_linker_spec(*target_triple)
            &&& exists|libs: Seq<LibraryPath>|
                describes_libraries(libs, *arg) && cmd.args.deep_view() == #[trigger] link_args_spec(
                    *target_triple,
                    lib_path@,
                    output_path@,
                    compiler_dir@,
                    *linker_config,
                    *arg,
                    libs,
                    os,
                )
        },
        r matches Err(e) ==> (e matches LinkError::LinkerNotFound(a) && a@ == target_triple.abi@),
{
    let libs = library_paths(arg);
    let r = link_command(
        target_triple,
        lib_path,
        output_path,
        compiler_dir,
        linker_config,
        arg,
        &libs,
        os,
    );
    proof {
        if r is Ok {
            let cmd = r->Ok_0;
            assert(describes_libraries(libs@, *arg) && cmd.args.deep_view() == link_args_spec(
                *target_triple,
                lib_path@,
                output_path@,
                compiler_dir@,
                *linker_config,
                *arg,
                libs@,
                os,
            ));
        }
    }
    r
}

/// The abi piece of a triple's text (empty when it has none).
pub open spec fn triple_abi(s: Seq<char>) -> Seq<char> {
    if dash_split(s).len() > 3 {
        dash_split(s)[3]
    } else {
        Seq::<char>::empty()
    }
}

/// The file name of the static library: `<stem>.lib` for MSVC, `lib<stem>.a` otherwise.
pub open spec fn static_lib_name(stem: Seq<char>, abi: Seq<char>) -> Seq<char> {
    if abi == "msvc"@ {
        ""@ + stem + "."@ + "lib"@
    } else {
        "lib"@ + stem + "."@ + "a"@
    }
}

/// The optimisation level for the archiver: the one on the command line when it
/// is not empty; `None` stands for level 0.
pub open spec fn static_lib_opt_level(arg: Option<Args>) -> Option<Seq<char>> {
    match arg {
        Some(a) => if a.opt_level.0@.len() == 0 {
            None
        } else {
            Some(a.opt_level.0@)
        },
        None => None,
    }
}

/// How the static library is to be built: from which stem, into which
/// directory, under which file name, at which optimisation level.
#[derive(Clone, Debug)]
pub struct StaticLibraryPlan {
    /// Stem of the output path, else `output`.
    pub stem: String,
    /// Directory of the output path, else `.`.
    pub out_dir: String,
    /// File name of the library inside `out_dir`.
    pub lib_name: String,
    /// Optimisation level by name; `None` for level 0.
    pub opt_level: Option<String>,
}

/// Lays out the static library from the stem and directory of the output path.
pub fn static_library_layout(
    stem: Option<String>,
    parent: Option<String>,
    target: &str,
    arg: &Option<Args>,
) -> (r: StaticLibraryPlan)
    requires
        is_triple_text(target@),
    ensures
        r.stem@ == (match stem {
            Some(s) => s@,
            None => "output"@,
        }),
        r.out_dir@ == (match parent {
            Some(p) => p@,
            None => "."@,
        }),
        r.lib_name@ == static_lib_name(r.stem@, triple_abi(target@)),
        static_lib_opt_level(*arg) == (match r.opt_level {
            Some(o) => Some(o@),
            None => None,
        }),
{
    let stem = match stem {
        Some(s) => s,
        None => String::from_str("output"),
    };
    let out_dir = match parent {
        Some(p) => p,
        None => String::from_str("."),
    };
    let target_triple = TargetTriple::new(target);
    let is_msvc = str_eq(target_triple.abi.as_str(), "msvc");
    let lib_extension = if is_msvc {
        "lib"
    } else {
        "a"
    };
    let lib_prefix = if is_msvc {
        ""
    } else {
        "lib"
    };
    let mut lib_name = join3(lib_prefix, stem.as_str(), ".");
    lib_name.append(lib_extension);
    let opt_level = match arg {
        Some(a) => if !a.opt_level.0.as_str().is_empty() {
            Some(a.opt_level.0.clone())
        } else {
            None
        },
        None => None,
    };
    StaticLibraryPlan { stem, out_dir, lib_name, opt_level }
}

/// Lays out the static library for an output path; the stem and directory
/// come from the platform's path rules, stated for the empty path, a plain
/// name, and a plain directory followed by a plain name.
pub fn static_library_plan(output_path: &str, target: &str, arg: &Option<Args>) -> (r:
    StaticLibraryPlan)
    requires
        is_triple_text(target@),
    ensures
        r.lib_name@ == static_lib_name(r.stem@, triple_abi(target@)),
        output_path@.len() == 0 ==> r.out_dir@ == "."@ && r.stem@ == "output"@,
        is_plain_name(output_path@) ==> r.stem@ == file_stem_of(output_path@) && r.out_dir@
            == Seq::<char>::empty(),
        forall|dir: Seq<char>, name: Seq<char>| #[trigger]
            is_dir_and_name(output_path@, dir, name) ==> r.stem@ == file_stem_of(name)
                && r.out_dir@ == dir,
        static_lib_opt_level(*arg) == (match r.opt_level {
            Some(o) => Some(o@),
            None => None,
        }),
{
    let stem = path_file_stem(output_path);
    let parent = path_parent(output_path);
    static_library_layout(stem, parent, target, arg)
}

/// Outside macOS and Apple, the linker is chosen by the abi alone: `gnu` links
/// with `gcc` whatever the operating system, `link.exe` is used only for the
/// `msvc` abi, and an abi other than these two has no linker. macOS and Apple
/// always link with `clang`.
pub proof fn lemma_linker_follows_abi(t: TargetTriple)
    ensures
        (t.os@ == "macos"@ || t.vendor@ == "apple"@) ==> choose_linker_spec(t) == Some(
            Linker::Clang,
        ),
        (t.os@ != "macos"@ && t.vendor@ != "apple"@ && t.abi@ == "gnu"@) ==> choose_linker_spec(t)
            == Some(Linker::Gcc),
        choose_linker_spec(t) == Some(Linker::MsvcLink) ==> t.abi@ == "msvc"@,
        choose_linker_spec(t) == Some(Linker::Gcc) ==> t.abi@ == "gnu"@,
        (t.abi@ != "gnu"@ && t.abi@ != "msvc"@ && t.os@ != "macos"@ && t.vendor@ != "apple"@)
            ==> choose_linker_spec(t) is None,
{
    reveal_strlit("gnu");
    reveal_strlit("msvc");
    assert("gnu"@.len() != "msvc"@.len());
}

/// The flags of a triple follow its abi: a triple whose abi is `gnu`, or that
/// has no abi, or whose vendor is Apple, gets `-o`, `-L` and `-l` whatever its
/// operating system; a non-Apple triple whose abi is `msvc` gets `/OUT`,
/// `/LIBPATH` and no library flag; any other abi of a non-Apple triple has no
/// flags.
pub proof fn lemma_linker_flags_follow_abi(t: TargetTriple)
    ensures
        (t.abi@ == "gnu"@ || t.abi@.len() == 0 || t.vendor@ == "apple"@) ==> {
            &&& abi_arg_spec(linker_key(t), "output"@) == Some("-o"@)
            &&& abi_arg_spec(linker_key(t), "linkdir"@) == Some("-L"@)
            &&& abi_arg_spec(linker_key(t), "link"@) == Some("-l"@)
        },
        (t.abi@ == "msvc"@ && t.vendor@ != "apple"@) ==> {
            &&& abi_arg_spec(linker_key(t), "output"@) == Some("/OUT"@)
            &&& abi_arg_spec(linker_key(t), "linkdir"@) == Some("/LIBPATH"@)
            &&& abi_arg_spec(linker_key(t), "link"@) == Some(""@)
        },
        (t.abi@.len() > 0 && t.abi@ != "gnu"@ && t.abi@ != "msvc"@ && t.vendor@ != "apple"@)
            ==> abi_arg_spec(linker_key(t), "output"@) is None,
{
    reveal_strlit("gnu");
    reveal_strlit("msvc");
    reveal_strlit("output");
    reveal_strlit("linkdir");
    reveal_strlit("link");
    assert("gnu"@.len() != "msvc"@.len());
    assert("output"@.len() == 6);
    assert("linkdir"@.len() == 7);
    assert("link"@.len() == 4);
}

/// The linker's arguments are MSVC style exactly for the `msvc` abi: any other
/// triple, whatever its operating system or vendor, gets the GNU list that
/// starts with the static library, the output flag and file, the directory
/// flag and the runtime directory, the library flag and `arc`.
pub proof fn lemma_gnu_args_unless_msvc(
    t: TargetTriple,
    lib_path: Seq<char>,
    output_path: Seq<char>,
    compiler_dir: Seq<char>,
    c: LinkerConfig,
    libs: Seq<LibraryPath>,
)
    ensures
        t.abi@ != "msvc"@ ==> linker_args_spec(t, lib_path, output_path, compiler_dir, c, libs).take(7)
            == seq![
            lib_path,
            c.output_flag@,
            output_path,
            c.linkdir_flag@,
            compiler_dir + "/include/clib"@,
            c.library_flag@,
            "arc"@,
        ],
        t.abi@ == "msvc"@ ==> linker_args_spec(t, lib_path, output_path, compiler_dir, c, libs).take(
            2,
        ) == seq![lib_path, c.output_flag@ + ":"@ + output_path],
{
    let a = linker_args_spec(t, lib_path, output_path, compiler_dir, c, libs);
    if t.abi@ != "msvc"@ {
        assert(a.take(7) =~= seq![
            lib_path,
            c.output_flag@,
            output_path,
            c.linkdir_flag@,
            compiler_dir + "/include/clib"@,
            c.library_flag@,
            "arc"@,
        ]);
    } else {
        assert(a.take(2) =~= seq![lib_path, c.output_flag@ + ":"@ + output_path]);
    }
}

/// The linker's arguments depend on the triple only through its abi and its
/// architecture: two triples that agree on these, whatever their operating
/// systems and vendors, get the same arguments.
pub proof fn lemma_args_ignore_os_and_vendor(
    t1: TargetTriple,
    t2: TargetTriple,
    lib_path: Seq<char>,
    output_path: Seq<char>,
    compiler_dir: Seq<char>,
    c: LinkerConfig,
    libs: Seq<LibraryPath>,
)
    requires
        t1.abi@ == t2.abi@,
        t1.arch@ == t2.arch@,
    ensures
        linker_args_spec(t1, lib_path, output_path, compiler_dir, c, libs) == linker_args_spec(
            t2,
            lib_path,
            output_path,
            compiler_dir,
            c,
            libs,
        ),
{
}

/// The static library is `<stem>.lib` for the `msvc` abi and `lib<stem>.a` for
/// every other abi (`gnu`, `musl`, none, ...).
pub proof fn lemma_static_lib_name_by_abi(stem: Seq<char>, abi: Seq<char>)
    ensures
        abi != "msvc"@ ==> static_lib_name(stem, abi) == seq!['l', 'i', 'b'] + stem + seq!['.', 'a'],
        abi == "msvc"@ ==> static_lib_name(stem, abi) == stem + seq!['.', 'l', 'i', 'b'],
{
    reveal_strlit("");
    reveal_strlit(".");
    reveal_strlit("lib");
    reveal_strlit("a");
    assert(seq!['l', 'i', 'b'] + stem + seq!['.'] + seq!['a'] =~= seq!['l', 'i', 'b'] + stem + seq!['.', 'a']);
    assert(Seq::<char>::empty() + stem + seq!['.'] + seq!['l', 'i', 'b'] =~= stem + seq!['.', 'l', 'i', 'b']);
}

/// The default target of a Windows host, `x86_64-pc-windows-gnu`, links with
/// `gcc` and the GNU flags `-o`, `-L` and `-l`, like any `gnu` triple.
pub proof fn lemma_windows_default_links_gnu(t: TargetTriple)
    requires
        t.parsed_from(default_target_spec(HostOs::Windows, HostArch::X86_64).unwrap()),
    ensures
        choose_linker_spec(t) == Some(Linker::Gcc),
        abi_arg_spec(linker_key(t), "output"@) == Some("-o"@),
        abi_arg_spec(linker_key(t), "linkdir"@) == Some("-L"@),
        abi_arg_spec(linker_key(t), "link"@) == Some("-l"@),
{
    let x = seq!['x', '8', '6', '_', '6', '4'];
    let p = seq!['p', 'c'];
    let w = seq!['w', 'i', 'n', 'd', 'o', 'w', 's'];
    let g = seq!['g', 'n', 'u'];
    reveal_strlit("x86_64-pc-windows-gnu");
    reveal_strlit("gnu");
    reveal_strlit("macos");
    reveal_strlit("apple");
    assert("x86_64-pc-windows-gnu"@ =~= x + seq!['-'] + p + seq!['-'] + w + seq!['-'] + g);
    assert(!x.contains('-')) by {
        assert forall|i: int| 0 <= i < x.len() implies x[i] != '-' by {}
    }
    assert(!p.contains('-')) by {
        assert forall|i: int| 0 <= i < p.len() implies p[i] != '-' by {}
    }
    assert(!w.contains('-')) by {
        assert forall|i: int| 0 <= i < w.len() implies w[i] != '-' by {}
    }
    assert(!g.contains('-')) by {
        assert forall|i: int| 0 <= i < g.len() implies g[i] != '-' by {}
    }
    lemma_dash_split_plain(x);
    lemma_dash_split_dash_then(x, p);
    lemma_dash_split_dash_then(x + seq!['-'] + p, w);
    lemma_dash_split_dash_then(x + seq!['-'] + p + seq!['-'] + w, g);
    assert(dash_split("x86_64-pc-windows-gnu"@) =~= seq![x, p, w, g]);
    assert(t.abi@ == "gnu"@);
    assert(t.os@ != "macos"@) by {
        assert(t.os@.len() != "macos"@.len());
    }
    assert(t.vendor@ != "apple"@) by {
        assert(t.vendor@.len() != "apple"@.len());
    }
    lemma_linker_follows_abi(t);
    lemma_linker_flags_follow_abi(t);
}

} // verus!
