use vstd::prelude::*;

use crate::text::str_eq;

verus! {

/// The command line of the compiler, as its argument parser fills it.
#[derive(Clone, Debug)]
pub struct Args {
    /// Input file.
    pub file: String,
    /// Output path.
    pub output: Option<String>,
    /// Optimisation level of the code generator.
    pub cranelift_opt_level: Option<CraneliftOptLevel>,
    /// Optimisation level (0-3, s, z).
    pub opt_level: OptLevelArg,
    /// Whether to emit debug information.
    pub debug_info: bool,
    /// Static libraries to link with.
    pub link_with: Vec<String>,
    /// Packages to import.
    pub extern_crates: Vec<String>,
    /// Whether to keep the temporary object file.
    pub keep_cache: bool,
    /// Target triple; empty for the host's default.
    pub target_triple: String,
    /// Compile only, do not link.
    pub compile_only: bool,
    /// Script mode.
    pub script_mode: bool,
}

/// Optimisation level of the code generator.
#[derive(Clone, Copy, Debug, PartialEq, Eq, Structural)]
pub enum CraneliftOptLevel {
    /// Written `none` on the command line.
    NoOpt,
    Speed,
    SpeedAndSize,
}

/// The name by which each level is written on the command line.
pub open spec fn cranelift_name(level: CraneliftOptLevel) -> Seq<char> {
    match level {
        CraneliftOptLevel::NoOpt => "none"@,
        CraneliftOptLevel::Speed => "speed"@,
        CraneliftOptLevel::SpeedAndSize => "speed_and_size"@,
    }
}

/// The level that a command-line word names, if any.
pub open spec fn cranelift_level_of(s: Seq<char>) -> Option<CraneliftOptLevel> {
    if s == "none"@ {
        Some(CraneliftOptLevel::NoOpt)
    } else if s == "speed"@ {
        Some(CraneliftOptLevel::Speed)
    } else if s == "speed_and_size"@ {
        Some(CraneliftOptLevel::SpeedAndSize)
    } else {
        None
    }
}

/// The message given for a word that names no code-generator level.
pub open spec fn cranelift_error(s: Seq<char>) -> Seq<char> {
    "Invalid opt level: "@ + s + ". Options: none, speed, speed_and_size"@
}

impl CraneliftOptLevel {
    /// Reads a level from its command-line word.
    pub fn parse(s: &str) -> (r: Result<CraneliftOptLevel, String>)
        ensures
            r is Ok <==> cranelift_level_of(s@) is Some,
            r matches Ok(v) ==> cranelift_level_of(s@) == Some(v),
            r matches Err(e) ==> e@ == cranelift_error(s@),
    {
        if str_eq(s, "none") {
            Ok(CraneliftOptLevel::NoOpt)
        } else if str_eq(s, "speed") {
            Ok(CraneliftOptLevel::Speed)
        } else if str_eq(s, "speed_and_size") {
            Ok(CraneliftOptLevel::SpeedAndSize)
        } else {
            let mut msg = String::from_str("Invalid opt level: ");
            msg.append(s);
            msg.append(". Options: none, speed, speed_and_size");
            Err(msg)
        }
    }

    /// The command-line word of this level.
    pub fn to_string(&self) -> (r: String)
        ensures
            r@ == cranelift_name(*self),
    {
        match self {
            CraneliftOptLevel::NoOpt => String::from_str("none"),
            CraneliftOptLevel::Speed => String::from_str("speed"),
            CraneliftOptLevel::SpeedAndSize => String::from_str("speed_and_size"),
        }
    }
}

impl std::str::FromStr for CraneliftOptLevel {
    type Err = String;

    fn from_str(s: &str) -> (r: Result<CraneliftOptLevel, String>)
        ensures
            r is Ok <==> cranelift_level_of(s@) is Some,
            r matches Ok(v) ==> cranelift_level_of(s@) == Some(v),
            r matches Err(e) ==> e@ == cranelift_error(s@),
    {
        CraneliftOptLevel::parse(s)
    }
}

/// Optimisation level of the generated library, one of `0`, `1`, `2`, `3`, `s`, `z`.
#[derive(Clone, Debug)]
pub struct OptLevelArg(pub String);

/// The words accepted as an optimisation level.
pub open spec fn is_opt_level_word(s: Seq<char>) -> bool {
    ||| s == "0"@
    ||| s == "1"@
    ||| s == "2"@
    ||| s == "3"@
    ||| s == "s"@
    ||| s == "z"@
}

/// The message given for a word that is no optimisation level.
pub open spec fn opt_level_error(s: Seq<char>) -> Seq<char> {
    "Invalid opt level: "@ + s + ". Options: 0, 1, 2, 3, s, z"@
}

impl OptLevelArg {
    /// Reads an optimisation level from its command-line word.
    pub fn parse(s: &str) -> (r: Result<OptLevelArg, String>)
        ensures
            r is Ok <==> is_opt_level_word(s@),
            r matches Ok(v) ==> v.0@ == s@,
            r matches Err(e) ==> e@ == opt_level_error(s@),
    {
        if str_eq(s, "0") || str_eq(s, "1") || str_eq(s, "2") || str_eq(s, "3") || str_eq(s, "s")
            || str_eq(s, "z") {
            Ok(OptLevelArg(String::from_str(s)))
        } else {
            let mut msg = String::from_str("Invalid opt level: ");
            msg.append(s);
            msg.append(". Options: 0, 1, 2, 3, s, z");
            Err(msg)
        }
    }

    /// The level as a compiler flag suffix: `O` followed by the word.
    pub fn to_string(&self) -> (r: String)
        ensures
            r@ == "O"@ + self.0@,
    {
        let mut r = String::from_str("O");
        r.append(self.0.as_str());
        r
    }
}

impl std::str::FromStr for OptLevelArg {
    type Err = String;

    fn from_str(s: &str) -> (r: Result<OptLevelArg, String>)
        ensures
            r is Ok <==> is_opt_level_word(s@),
            r matches Ok(v) ==> v.0@ == s@,
            r matches Err(e) ==> e@ == opt_level_error(s@),
    {
        OptLevelArg::parse(s)
    }
}

/// A code-generator level read back from its own word is that level, and a
/// word that reads as a level is that level's word.
pub proof fn lemma_cranelift_name_roundtrip(level: CraneliftOptLevel, s: Seq<char>)
    ensures
        cranelift_level_of(cranelift_name(level)) == Some(level),
        cranelift_level_of(s) == Some(level) ==> cranelift_name(level) == s,
{
    reveal_strlit("none");
    reveal_strlit("speed");
    reveal_strlit("speed_and_size");
    assert("none"@.len() == 4);
    assert("speed"@.len() == 5);
    assert("speed_and_size"@.len() == 14);
}

} // verus!
