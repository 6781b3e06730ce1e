use ant_link::args::{Args, CraneliftOptLevel, OptLevelArg};
use ant_link::text::{is_blank, split_dashes, str_eq, strip_lib_prefix};
use ant_link::triple::{
    get_default_target, get_target_triple_or_default, host_is_supported, parses_as_triple, HostArch,
    HostOs, TargetTriple,
};

fn args_with(target: &str, opt: &str, debug: bool, libs: &[&str]) -> Args {
    Args {
        file: "main.ant".to_string(),
        output: None,
        cranelift_opt_level: None,
        opt_level: OptLevelArg(opt.to_string()),
        debug_info: debug,
        link_with: libs.iter().map(|s| s.to_string()).collect(),
        extern_crates: Vec::new(),
        keep_cache: false,
        target_triple: target.to_string(),
        compile_only: false,
        script_mode: false,
    }
}

#[test]
fn triple_with_abi_reads_four_fields() {
    let t = TargetTriple::new("x86_64-pc-windows-msvc");
    assert_eq!(t.arch, "x86_64");
    assert_eq!(t.vendor, "pc");
    assert_eq!(t.os, "windows");
    assert_eq!(t.abi, "msvc");
}

#[test]
fn triple_without_abi_has_empty_abi() {
    let t = TargetTriple::new("aarch64-apple-darwin");
    assert_eq!(t.arch, "aarch64");
    assert_eq!(t.vendor, "apple");
    assert_eq!(t.os, "darwin");
    assert_eq!(t.abi, "");
}

#[test]
fn triple_drops_pieces_after_the_fourth() {
    let t = TargetTriple::new("a-b-c-d-e");
    assert_eq!(t.abi, "d");
    let t = TargetTriple::from_string("x--y".to_string());
    assert_eq!(t.arch, "x");
    assert_eq!(t.vendor, "");
    assert_eq!(t.os, "y");
}

#[test]
fn triple_text_with_and_without_abi() {
    assert_eq!(TargetTriple::new("x86_64-unknown-linux-gnu").to_string(), "x86_64-unknown-linux-gnu");
    assert_eq!(TargetTriple::new("aarch64-apple-darwin").to_string(), "aarch64-apple-darwin");
    // A trailing empty abi is not written back.
    assert_eq!(TargetTriple::new("a-b-c-").to_string(), "a-b-c");
}

#[test]
fn triple_roundtrip_on_dash_free_fields() {
    let t = TargetTriple {
        arch: "riscv64".to_string(),
        vendor: "unknown".to_string(),
        os: "linux".to_string(),
        abi: "musl".to_string(),
    };
    assert_eq!(TargetTriple::new(&t.to_string()), t);
}

#[test]
fn triple_shape_check() {
    assert!(!parses_as_triple("x86_64"));
    assert!(!parses_as_triple("x86_64-pc"));
    assert!(parses_as_triple("x86_64-pc-windows"));
    assert!(parses_as_triple("--"));
}

#[test]
fn split_keeps_empty_pieces() {
    assert_eq!(split_dashes("a--b"), vec!["a", "", "b"]);
    assert_eq!(split_dashes(""), vec![""]);
    assert_eq!(split_dashes("-"), vec!["", ""]);
}

#[test]
fn text_helpers() {
    assert!(str_eq("gnu", "gnu"));
    assert!(!str_eq("gnu", "gn"));
    assert!(is_blank(""));
    assert!(is_blank(" \t\u{3000}\n"));
    assert!(!is_blank(" a "));
    assert_eq!(strip_lib_prefix("libfoo"), "foo");
    assert_eq!(strip_lib_prefix("lib"), "");
    assert_eq!(strip_lib_prefix("li"), "li");
    assert_eq!(strip_lib_prefix("foolib"), "foolib");
}

#[test]
fn cranelift_levels_parse() {
    assert_eq!(CraneliftOptLevel::parse("none"), Ok(CraneliftOptLevel::NoOpt));
    assert_eq!(CraneliftOptLevel::parse("speed"), Ok(CraneliftOptLevel::Speed));
    assert_eq!(CraneliftOptLevel::parse("speed_and_size"), Ok(CraneliftOptLevel::SpeedAndSize));
    assert_eq!(
        CraneliftOptLevel::parse("fast"),
        Err("Invalid opt level: fast. Options: none, speed, speed_and_size".to_string())
    );
    assert_eq!("speed".parse::<CraneliftOptLevel>(), Ok(CraneliftOptLevel::Speed));
}

#[test]
fn cranelift_levels_roundtrip() {
    for level in [CraneliftOptLevel::NoOpt, CraneliftOptLevel::Speed, CraneliftOptLevel::SpeedAndSize] {
        assert_eq!(CraneliftOptLevel::parse(&level.to_string()), Ok(level));
    }
    assert_eq!(CraneliftOptLevel::NoOpt.to_string(), "none");
    assert_eq!(CraneliftOptLevel::SpeedAndSize.to_string(), "speed_and_size");
}

#[test]
fn opt_level_words() {
    for w in ["0", "1", "2", "3", "s", "z"] {
        let level = OptLevelArg::parse(w).unwrap();
        assert_eq!(level.0, w);
        assert_eq!(level.to_string(), format!("O{}", w));
    }
    assert_eq!(
        OptLevelArg::parse("4").unwrap_err(),
        "Invalid opt level: 4. Options: 0, 1, 2, 3, s, z"
    );
    assert!(OptLevelArg::parse("").is_err());
    assert!("z".parse::<OptLevelArg>().is_ok());
}

#[test]
fn default_targets_of_hosts() {
    assert_eq!(get_default_target(HostOs::Windows, HostArch::X86_64), "x86_64-pc-windows-gnu");
    assert_eq!(get_default_target(HostOs::Linux, HostArch::Aarch64), "aarch64-unknown-linux-gnu");
    assert_eq!(get_default_target(HostOs::Linux, HostArch::X86_64), "x86_64-unknown-linux-gnu");
    assert_eq!(get_default_target(HostOs::MacOs, HostArch::Aarch64), "aarch64-apple-darwin");
    assert_eq!(get_default_target(HostOs::MacOs, HostArch::X86_64), "x86_64-apple-darwin");
    assert!(!host_is_supported(HostOs::Windows, HostArch::Aarch64));
    assert!(!host_is_supported(HostOs::Other, HostArch::X86_64));
    assert!(host_is_supported(HostOs::Linux, HostArch::X86_64));
}

#[test]
fn target_from_command_line_or_default() {
    let none: Option<Args> = None;
    assert_eq!(
        get_target_triple_or_default(&none, HostOs::Linux, HostArch::X86_64),
        "x86_64-unknown-linux-gnu"
    );
    let empty = Some(args_with("", "0", false, &[]));
    assert_eq!(
        get_target_triple_or_default(&empty, HostOs::MacOs, HostArch::Aarch64),
        "aarch64-apple-darwin"
    );
    let given = Some(args_with("x86_64-pc-windows-msvc", "0", false, &[]));
    assert_eq!(
        get_target_triple_or_default(&given, HostOs::Linux, HostArch::X86_64),
        "x86_64-pc-windows-msvc"
    );
}

#[test]
fn split_then_join_gives_the_text_back() {
    for s in ["a-b--c", "", "-", "x86_64-pc-windows-msvc"] {
        assert_eq!(split_dashes(s).join("-"), s);
    }
}
