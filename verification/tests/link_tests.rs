use std::rc::Rc;

use ant_link::args::{Args, OptLevelArg};
use ant_link::link::{
    abi_arg, add_platform_specific_flags, add_user_libraries_gnu, add_user_libraries_msvc,
    build_linker_args, choose_linker, get_linker_config, library_paths, link_command, link_executable,
    static_library_layout, static_library_plan, LibraryPath, LinkError, Linker, LinkerConfig,
};
use ant_link::triple::{HostOs, TargetTriple};

fn args_with(target: &str, opt: &str, debug: bool, libs: &[&str]) -> Args {
    Args {
        file: "main.ant".to_string(),
        output: None,
        cranelift_opt_level: None,
        opt_level: OptLevelArg(opt.to_string()),
        debug_info: debug,
        link_with: libs.iter().map(|s| s.to_string()).collect(),
        extern_crates: Vec::new(),
        keep_cache: false,
        target_triple: target.to_string(),
        compile_only: false,
        script_mode: false,
    }
}

fn gnu_config() -> LinkerConfig {
    get_linker_config(&TargetTriple::new("x86_64-unknown-linux-gnu")).unwrap()
}

fn msvc_config() -> LinkerConfig {
    get_linker_config(&TargetTriple::new("x86_64-pc-windows-msvc")).unwrap()
}

#[test]
fn abi_table() {
    assert_eq!(abi_arg("msvc", "linkdir"), Some("/LIBPATH"));
    assert_eq!(abi_arg("msvc", "link"), Some(""));
    assert_eq!(abi_arg("msvc", "output"), Some("/OUT"));
    assert_eq!(abi_arg("gnu", "linkdir"), Some("-L"));
    assert_eq!(abi_arg("gnu", "link"), Some("-l"));
    assert_eq!(abi_arg("gnu", "output"), Some("-o"));
    assert_eq!(abi_arg("gnu", "other"), None);
    assert_eq!(abi_arg("musl", "output"), None);
}

#[test]
fn linker_config_per_abi() {
    let c = gnu_config();
    assert_eq!((c.output_flag.as_str(), c.linkdir_flag.as_str(), c.library_flag.as_str()), ("-o", "-L", "-l"));
    let c = msvc_config();
    assert_eq!((c.output_flag.as_str(), c.linkdir_flag.as_str(), c.library_flag.as_str()), ("/OUT", "/LIBPATH", ""));
    // No abi, or an Apple vendor, links GNU style.
    let c = get_linker_config(&TargetTriple::new("aarch64-apple-darwin")).unwrap();
    assert_eq!(c.output_flag, "-o");
    let c = get_linker_config(&TargetTriple::new("aarch64-apple-ios-macabi")).unwrap();
    assert_eq!(c.linkdir_flag, "-L");
}

#[test]
fn linker_config_rejects_unknown_abi() {
    match get_linker_config(&TargetTriple::new("x86_64-unknown-linux-musl")) {
        Err(e) => {
            assert!(matches!(&e, LinkError::UnsupportedAbi(a) if a == "musl"));
            assert_eq!(e.message(), "Unsupported ABI: musl");
        }
        Ok(_) => panic!("musl has no flags"),
    }
}

#[test]
fn linker_choice() {
    assert_eq!(choose_linker(&TargetTriple::new("x86_64-unknown-macos-gnu")), Some(Linker::Clang));
    assert_eq!(choose_linker(&TargetTriple::new("aarch64-apple-darwin")), Some(Linker::Clang));
    assert_eq!(choose_linker(&TargetTriple::new("x86_64-pc-windows-msvc")), Some(Linker::MsvcLink));
    assert_eq!(choose_linker(&TargetTriple::new("x86_64-unknown-linux-gnu")), Some(Linker::Gcc));
    assert_eq!(choose_linker(&TargetTriple::new("x86_64-unknown-linux-musl")), None);
    assert_eq!(choose_linker(&TargetTriple::new("x86_64-unknown-linux")), None);
}

#[test]
fn platform_flags_per_host() {
    let mut v = vec!["x".to_string()];
    add_platform_specific_flags(&mut v, HostOs::Linux);
    assert_eq!(v, vec!["x", "-static", "-lc", "-Wl,-z,noexecstack"]);
    let mut v = Vec::new();
    add_platform_specific_flags(&mut v, HostOs::Windows);
    assert_eq!(v, vec!["-static", "-lmsvcrt"]);
    let mut v = Vec::new();
    add_platform_specific_flags(&mut v, HostOs::MacOs);
    assert_eq!(v, vec!["-fPIC"]);
    let mut v: Vec<String> = Vec::new();
    add_platform_specific_flags(&mut v, HostOs::Other);
    assert!(v.is_empty());
}

#[test]
fn library_paths_follow_the_command_line() {
    let arg = Some(args_with("", "0", false, &["dir/libfoo.a", "bar"]));
    let libs = library_paths(&arg);
    assert_eq!(libs.len(), 2);
    assert_eq!(libs[0].path, "dir/libfoo.a");
    assert_eq!(libs[0].parent.as_deref(), Some("dir"));
    assert_eq!(libs[0].file_name.as_deref(), Some("libfoo.a"));
    assert_eq!(libs[0].file_stem.as_deref(), Some("libfoo"));
    assert_eq!(libs[1].parent.as_deref(), Some(""));
    assert!(library_paths(&None).is_empty());
    assert_eq!(LibraryPath::of("").parent, None);
}

#[test]
fn gnu_user_libraries() {
    let libs = vec![LibraryPath::of("dir/libfoo.a"), LibraryPath::of("  "), LibraryPath::of("bar")];
    let mut v = Vec::new();
    add_user_libraries_gnu(&mut v, &gnu_config(), &libs);
    assert_eq!(v, vec!["-L", "dir", "-L", "", "-L", "", "-lfoo", "-lbar"]);
}

#[test]
fn msvc_user_libraries() {
    let libs = vec![LibraryPath::of("dir/foo.lib"), LibraryPath::of(""), LibraryPath::of("bar.lib")];
    let mut v = Vec::new();
    add_user_libraries_msvc(&mut v, &msvc_config(), &libs);
    assert_eq!(v, vec!["/LIBPATH:dir", "/LIBPATH:", "foo.lib", "bar.lib"]);
}

#[test]
fn gnu_linker_args() {
    let t = TargetTriple::new("x86_64-unknown-linux-gnu");
    let libs = vec![LibraryPath::of("libm.a")];
    let mut v = Vec::new();
    build_linker_args(&mut v, &t, "out/libmain.a", "out/main", "/opt/ant", &gnu_config(), &libs);
    assert_eq!(
        v,
        vec![
            "out/libmain.a", "-o", "out/main", "-L", "/opt/ant/include/clib", "-l", "arc", "-L", "",
            "-lm",
        ]
    );
}

#[test]
fn msvc_linker_args() {
    let c = msvc_config();
    let mut v = Vec::new();
    build_linker_args(&mut v, &TargetTriple::new("x86_64-pc-windows-msvc"), "main.lib", "main.exe", "C:/ant", &c, &Vec::new());
    assert_eq!(
        v,
        vec![
            "main.lib", "/OUT:main.exe", "/LIBPATH:C:/ant/include/clib", "libarc.lib",
            "legacy_stdio_definitions.lib", "/SUBSYSTEM:CONSOLE", "/DEFAULTLIB:msvcrt", "/MACHINE:X64",
            "/ENTRY:mainCRTStartup",
        ]
    );
    let mut v = Vec::new();
    build_linker_args(&mut v, &TargetTriple::new("x86-pc-windows-msvc"), "a", "b", "c", &c, &Vec::new());
    assert_eq!(v[7], "/MACHINE:X86");
    assert_eq!(v[8], "/ENTRY:_mainCRTStartup");
    let mut v = Vec::new();
    build_linker_args(&mut v, &TargetTriple::new("aarch64-pc-windows-msvc"), "a", "b", "c", &c, &Vec::new());
    assert_eq!(v[7], "/MACHINE:ARM64");
}

#[test]
fn link_gnu_with_debug_info() {
    let t = TargetTriple::new("x86_64-unknown-linux-gnu");
    let arg = Some(args_with("", "0", true, &[]));
    let cmd = link_executable(&t, "libmain.a", "main", "/ant", &gnu_config(), &arg, HostOs::Linux).unwrap();
    assert_eq!(cmd.linker, Linker::Gcc);
    assert_eq!(
        cmd.args,
        vec![
            "-g", "libmain.a", "-o", "main", "-L", "/ant/include/clib", "-l", "arc", "-static", "-lc",
            "-Wl,-z,noexecstack",
        ]
    );
}

#[test]
fn link_msvc_with_debug_info() {
    let t = TargetTriple::new("x86_64-pc-windows-msvc");
    let arg = Some(args_with("", "0", true, &["z.lib"]));
    let libs = library_paths(&arg);
    let cmd = link_command(&t, "m.lib", "m.exe", "C:", &msvc_config(), &arg, &libs, HostOs::Windows).unwrap();
    assert_eq!(cmd.linker, Linker::MsvcLink);
    assert_eq!(cmd.args[0], "/Zi");
    assert_eq!(cmd.args.last().unwrap(), "z.lib");
    assert_eq!(cmd.args.len(), 1 + 9 + 1 + 1);
    assert_eq!(cmd.args[10], "/LIBPATH:");
}

#[test]
fn link_apple_without_debug_has_no_platform_flags() {
    let t = TargetTriple::new("aarch64-apple-darwin");
    let cmd = link_executable(&t, "l.a", "o", "d", &gnu_config(), &None, HostOs::MacOs).unwrap();
    assert_eq!(cmd.linker, Linker::Clang);
    assert_eq!(cmd.args, vec!["l.a", "-o", "o", "-L", "d/include/clib", "-l", "arc"]);
}

#[test]
fn link_without_linker_fails() {
    let t = TargetTriple::new("x86_64-unknown-linux-musl");
    match link_executable(&t, "l.a", "o", "d", &gnu_config(), &None, HostOs::Linux) {
        Err(e) => {
            assert!(matches!(&e, LinkError::LinkerNotFound(a) if a == "musl"));
            assert_eq!(e.message(), "compiler for abi musl not found");
        }
        Ok(_) => panic!("no linker for musl"),
    }
}

#[test]
fn static_library_names() {
    let p = static_library_plan("build/out.o", "x86_64-unknown-linux-gnu", &None);
    assert_eq!(p.stem, "out");
    assert_eq!(p.out_dir, "build");
    assert_eq!(p.lib_name, "libout.a");
    assert_eq!(p.opt_level, None);
    let p = static_library_plan("build/out.o", "x86_64-pc-windows-msvc", &Some(args_with("", "2", false, &[])));
    assert_eq!(p.lib_name, "out.lib");
    assert_eq!(p.opt_level.as_deref(), Some("2"));
    let p = static_library_layout(None, None, "a-b-c", &Some(args_with("", "", false, &[])));
    assert_eq!(p.stem, "output");
    assert_eq!(p.out_dir, ".");
    assert_eq!(p.lib_name, "liboutput.a");
    assert_eq!(p.opt_level, None);
    let p = static_library_plan("", "a-b-c", &None);
    assert_eq!(p.out_dir, ".");
}


#[test]
fn path_parts_of_plain_names_and_dir_name_pairs() {
    let l = LibraryPath::of("a.b.c");
    assert_eq!(l.parent.as_deref(), Some(""));
    assert_eq!(l.file_name.as_deref(), Some("a.b.c"));
    assert_eq!(l.file_stem.as_deref(), Some("a.b"));
    let l = LibraryPath::of("lib/.hidden");
    assert_eq!(l.parent.as_deref(), Some("lib"));
    assert_eq!(l.file_name.as_deref(), Some(".hidden"));
    assert_eq!(l.file_stem.as_deref(), Some(".hidden"));
    let l = LibraryPath::of("x/.a.b");
    assert_eq!(l.file_stem.as_deref(), Some(".a"));
    let l = LibraryPath::of("y/z.");
    assert_eq!(l.file_stem.as_deref(), Some("z"));
}

#[test]
fn static_library_plan_of_plain_output() {
    let p = static_library_plan("main", "x86_64-unknown-linux-gnu", &None);
    assert_eq!(p.stem, "main");
    assert_eq!(p.out_dir, "");
    assert_eq!(p.lib_name, "libmain.a");
}

#[test]
fn msvc_search_path_is_one_argument() {
    let t = TargetTriple::new("x86_64-pc-windows-msvc");
    let arg = Some(args_with("", "0", false, &["libs/foo.lib"]));
    let cmd = link_executable(&t, "m.lib", "m.exe", "C:", &msvc_config(), &arg, HostOs::Windows).unwrap();
    assert_eq!(&cmd.args[9..], &["/LIBPATH:libs".to_string(), "foo.lib".to_string()]);
}

#[test]
fn path_parts_of_nested_and_absolute_paths() {
    let l = LibraryPath::of("a/b/libx.a");
    assert_eq!(l.parent.as_deref(), Some("a/b"));
    assert_eq!(l.file_name.as_deref(), Some("libx.a"));
    assert_eq!(l.file_stem.as_deref(), Some("libx"));
    let l = LibraryPath::of("../deps/libfoo.a");
    assert_eq!(l.parent.as_deref(), Some("../deps"));
    assert_eq!(l.file_stem.as_deref(), Some("libfoo"));
    let l = LibraryPath::of("/usr/lib/libm.a");
    assert_eq!(l.parent.as_deref(), Some("/usr/lib"));
    assert_eq!(l.file_name.as_deref(), Some("libm.a"));
    let l = LibraryPath::of("");
    assert_eq!((l.parent, l.file_name, l.file_stem), (None, None, None));
}

#[test]
fn gnu_link_of_an_absolute_library() {
    let t = TargetTriple::new("x86_64-unknown-linux-gnu");
    let arg = Some(args_with("", "0", false, &["/usr/lib/libm.a"]));
    let cmd = link_executable(&t, "l.a", "o", "d", &gnu_config(), &arg, HostOs::Other).unwrap();
    assert_eq!(&cmd.args[7..], &["-L".to_string(), "/usr/lib".to_string(), "-lm".to_string()]);
}

#[test]
fn static_library_plan_of_nested_and_empty_output() {
    let p = static_library_plan("build/out/main", "x86_64-unknown-linux-gnu", &None);
    assert_eq!(p.stem, "main");
    assert_eq!(p.out_dir, "build/out");
    assert_eq!(p.lib_name, "libmain.a");
    let p = static_library_plan("", "x86_64-unknown-linux-gnu", &None);
    assert_eq!(p.stem, "output");
    assert_eq!(p.out_dir, ".");
}
