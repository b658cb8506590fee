use conan_build::conan::parse_bool_flag;
use conan_build::target::target_from_arch_and_os;
use conan_build::text::{escape_backslashes, join_path_str, parent_dir_str, replace_chars};
use conan_build::{parse_build_info, Applyable, BuildInfo, BuildInfoSet, Conan, ConanError, DirChildren, Lib, LibDir, LibFile};

fn manifest(arch: &str, os: &str, deps: &str) -> String {
    format!("{{\"settings\":{{\"arch\":\"{}\",\"os\":\"{}\"}},\"dependencies\":[{}]}}", arch, os, deps)
}

fn pkg(name: &str, libs: &str, lib_paths: &str, bin_paths: &str, root: &str) -> String {
    format!(
        "{{\"name\":\"{}\",\"libs\":[{}],\"lib_paths\":[{}],\"include_paths\":[],\"bin_paths\":[{}],\"rootpath\":\"{}\"}}",
        name, libs, lib_paths, bin_paths, root
    )
}

fn info(path: &str, text: &str, files: Vec<LibFile>) -> BuildInfo {
    BuildInfo::read_build_info(path.to_string(), parse_build_info(text).unwrap(), &files)
}

fn shared(name: &str) -> LibFile {
    LibFile { file_name: name.to_string(), dll_present: false }
}

#[test]
fn target_table() {
    let t = |a: &str, o: &str| target_from_arch_and_os(a, o);
    assert_eq!(t("x86_64", "Linux").unwrap(), "x86_64-unknown-linux-gnu");
    assert_eq!(t("x86", "Linux").unwrap(), "i686-unknown-linux-gnu");
    assert_eq!(t("x86_64", "Windows").unwrap(), "x86_64-pc-windows-msvc");
    assert_eq!(t("x86", "Windows").unwrap(), "i686-pc-windows-msvc");
    assert_eq!(t("armv8", "Macos").unwrap(), "aarch64-apple-darwin");
    assert_eq!(t("x86_64", "Macos").unwrap(), "x86_64-apple-darwin");
    assert_eq!(t("armv8", "iOS").unwrap(), "aarch64-apple-ios");
    assert_eq!(t("armv8", "Android").unwrap(), "aarch64-linux-android");
    assert_eq!(t("armv7", "Android").unwrap(), "armv7-linux-androideabi");
    assert_eq!(t("x86", "Android").unwrap(), "i686-linux-android");
    assert_eq!(t("x86_64", "Android").unwrap(), "x86_64-linux-android");
    assert!(matches!(t("armv7", "Linux"), Err(ConanError::UnsupportedArch { .. })));
    assert!(matches!(t("x86_64", "Haiku"), Err(ConanError::UnsupportedOs(ref o)) if o == "Haiku"));
}

#[test]
fn target_is_stable() {
    let a = info("/a.json", &manifest("armv8", "Android", ""), vec![]);
    let b = info("/b.json", &manifest("armv8", "Android", &pkg("z", "", "", "", "/z")), vec![]);
    assert_eq!(a.target().unwrap(), "aarch64-linux-android");
    assert_eq!(a.target().unwrap(), a.target().unwrap());
    assert_eq!(a.target().unwrap(), b.target().unwrap());
    let missing = info("/c.json", "{\"settings\":{\"os\":\"Linux\"},\"dependencies\":[]}", vec![]);
    assert!(matches!(missing.target(), Err(ConanError::MissingSetting(ref k)) if k == "arch"));
}

#[test]
fn text_helpers() {
    assert_eq!(replace_chars("x86_64-unknown-linux-gnu", '-', "_"), "x86_64_unknown_linux_gnu");
    assert_eq!(escape_backslashes("C:\\a\\b"), "C:\\\\a\\\\b");
    assert_eq!(join_path_str("/a", "b"), "/a/b");
    assert_eq!(join_path_str("/a/", "b"), "/a/b");
    assert_eq!(join_path_str("", "b"), "b");
    assert_eq!(parent_dir_str("/opt/zmq/lib"), "/opt/zmq");
    assert_eq!(parent_dir_str("/lib"), "/");
    assert_eq!(parent_dir_str("lib"), "");
    assert_eq!(parent_dir_str("a/b/."), "a");
    assert_eq!(parent_dir_str("C:\\pkg\\lib\\"), "C:\\pkg");
    assert_eq!(parent_dir_str("a/../b"), "a/..");
}

#[test]
fn env_scripts_for_host() {
    let deps = format!(
        "{},{},{}",
        pkg("zeromq", "\"zmq\"", "\"/opt/zmq/lib\"", "\"C:\\\\zmq\\\\bin\"", "/opt/zmq"),
        pkg("headers", "", "\"/opt/h/lib\"", "\"/opt/h/bin\"", "/opt/h"),
        pkg("openssl", "\"ssl\"", "\"/opt/ssl/lib\"", "", "/opt/ssl")
    );
    let b = info("/w/conanbuildinfo.json", &manifest("x86_64", "Linux", &deps), vec![shared("libzmq.so"), LibFile { file_name: "libssl.a".to_string(), dll_present: false }]);
    let (sh, ps1) = b.write_env_source(true).unwrap();
    assert_eq!(
        sh,
        "export x86_64_unknown_linux_gnu_CONANBUILDINFO=/w/conanbuildinfo.json\n\
         export LD_LIBRARY_PATH=/opt/zmq/lib\n\
         export x86_64_unknown_linux_gnu_OPENSSL_DIR=/opt/ssl\n\
         export OPENSSL_DIR=/opt/ssl\n"
    );
    assert_eq!(
        ps1,
        "$env:x86_64_unknown_linux_gnu_CONANBUILDINFO=\"/w/conanbuildinfo.json\"\n\
         $env:PATH=\"C:\\\\zmq\\\\bin;$env:PATH\"\n\
         $env:x86_64_unknown_linux_gnu_OPENSSL_DIR=\"/opt/ssl\"\n\
         $env:OPENSSL_DIR=\"/opt/ssl\"\n"
    );
    let (sh, ps1) = b.write_env_source(false).unwrap();
    assert_eq!(
        sh,
        "export x86_64_unknown_linux_gnu_CONANBUILDINFO=/w/conanbuildinfo.json\n\
         export x86_64_unknown_linux_gnu_OPENSSL_DIR=/opt/ssl\n"
    );
    assert_eq!(
        ps1,
        "$env:x86_64_unknown_linux_gnu_CONANBUILDINFO=\"/w/conanbuildinfo.json\"\n\
         $env:x86_64_unknown_linux_gnu_OPENSSL_DIR=\"/opt/ssl\"\n"
    );
}

#[test]
fn candidate_paths_outermost_first() {
    let dirs = vec![
        DirChildren { dir: "/w/p".to_string(), children: vec!["/w/p/x86".to_string()] },
        DirChildren { dir: "/w".to_string(), children: vec!["/w/p".to_string(), "/w/q".to_string()] },
        DirChildren { dir: "/".to_string(), children: vec![] },
    ];
    assert_eq!(
        BuildInfoSet::path_from_filesystem(&dirs),
        vec![
            "/conanbuildinfo.json".to_string(),
            "/w/p/conanbuildinfo.json".to_string(),
            "/w/q/conanbuildinfo.json".to_string(),
            "/w/conanbuildinfo.json".to_string(),
            "/w/p/x86/conanbuildinfo.json".to_string(),
            "/w/p/conanbuildinfo.json".to_string(),
        ]
    );
}

#[test]
fn candidates_from_directories_then_environment() {
    let dirs = vec![DirChildren { dir: "/w".to_string(), children: vec!["/w/x".to_string()] }];
    let vars = vec![
        ("CONANBUILDINFO".to_string(), "/env.json".to_string()),
        ("HOME".to_string(), "/home".to_string()),
    ];
    assert_eq!(
        BuildInfoSet::candidate_paths(&dirs, &vars),
        vec![
            "/w/x/conanbuildinfo.json".to_string(),
            "/w/conanbuildinfo.json".to_string(),
            "/env.json".to_string(),
        ]
    );
}

#[test]
fn manifest_variables() {
    let vars = vec![
        ("PATH".to_string(), "/bin".to_string()),
        ("CONANBUILDINFO".to_string(), "/a.json".to_string()),
        ("x86_64_unknown_linux_gnu_CONANBUILDINFO".to_string(), "/b.json".to_string()),
        ("ARM_CONANBUILDINFO".to_string(), "/c.json".to_string()),
        ("CONANBUILDINFO_X".to_string(), "/d.json".to_string()),
    ];
    assert_eq!(
        BuildInfoSet::path_from_env(&vars),
        vec!["/a.json".to_string(), "/b.json".to_string(), "/c.json".to_string()]
    );
}

#[test]
fn later_manifest_of_a_target_wins() {
    let first = info("/first.json", &manifest("x86_64", "Linux", ""), vec![]);
    let other = info("/other.json", &manifest("armv8", "Android", ""), vec![]);
    let second = info("/second.json", &manifest("x86_64", "Linux", ""), vec![]);
    let set = BuildInfoSet::find_all(vec![first, other, second]).unwrap();
    let found = set.targets_and_paths();
    assert_eq!(
        found,
        vec![
            ("x86_64-unknown-linux-gnu".to_string(), "/second.json".to_string()),
            ("aarch64-linux-android".to_string(), "/other.json".to_string()),
        ]
    );
    assert_eq!(set.get_current_target("x86_64-unknown-linux-gnu").unwrap().path(), "/second.json");
    assert!(set.get_current_target("i686-pc-windows-msvc").is_none());
    let all = set.all_targets("aarch64-linux-android");
    assert_eq!(all.iter().map(|(h, _)| *h).collect::<Vec<_>>(), vec![false, true]);
}

#[test]
fn unknown_target_fails_discovery() {
    let bad = info("/bad.json", &manifest("sparc", "Linux", ""), vec![]);
    assert!(matches!(BuildInfoSet::find_all(vec![bad]), Err(ConanError::UnsupportedArch { .. })));
}

#[test]
fn directives() {
    assert_eq!(Lib { is_static: true, name: "z".to_string() }.apply(), vec!["cargo:rustc-link-lib=static=z".to_string()]);
    assert_eq!(Lib { is_static: false, name: "z".to_string() }.apply(), vec!["cargo:rustc-link-lib=z".to_string()]);
    assert_eq!(LibDir("/l".to_string()).apply(), vec!["cargo:rustc-link-search=/l".to_string()]);
}

#[test]
fn orchestrator_marks_rerun_once() {
    let deps = pkg("zeromq", "\"zmq\"", "\"/opt/zmq/lib\"", "", "/opt/zmq");
    let host = info("/w/conanbuildinfo.json", &manifest("x86_64", "Linux", &deps), vec![shared("libzmq.so")]);
    let set = BuildInfoSet::find_all(vec![host]).unwrap();
    let mut conan = Conan::new(Some("x86_64-unknown-linux-gnu".to_string()), set).unwrap();
    let lines = conan.depends_on(&vec!["zeromq".to_string()]).unwrap();
    assert_eq!(
        lines,
        vec![
            "cargo:rerun-if-changed=/w/conanbuildinfo.json".to_string(),
            "cargo:rustc-link-lib=zmq".to_string(),
            "cargo:rustc-link-search=/opt/zmq/lib".to_string(),
        ]
    );
    let lines = conan.depends_on_optional(&vec!["libsodium".to_string()]).unwrap();
    assert!(lines.is_empty());
    let mixed = conan.depends_on_optional(&vec!["libsodium".to_string(), "zeromq".to_string()]).unwrap();
    let declared = conan.depends_on(&vec!["zeromq".to_string()]).unwrap();
    assert_eq!(mixed, declared);
    assert_eq!(mixed, vec!["cargo:rustc-link-lib=zmq".to_string(), "cargo:rustc-link-search=/opt/zmq/lib".to_string()]);
    assert!(conan.depends_on_libcxx().unwrap().is_empty());
    assert!(conan.mark_rerun_if_changed().unwrap().is_empty());
    assert!(matches!(conan.depends_on(&vec!["libsodium".to_string()]), Err(ConanError::MissingDependency(ref n)) if n == "libsodium"));
}

#[test]
fn orchestrator_without_host_manifest() {
    let other = info("/o.json", &manifest("armv8", "Android", ""), vec![]);
    let set = BuildInfoSet::find_all(vec![other]).unwrap();
    let mut conan = Conan::with_host("x86_64-unknown-linux-gnu".to_string(), set);
    match conan.depends_on(&vec![]) {
        Err(ConanError::NoBuildInfo { host, available }) => {
            assert_eq!(host, "x86_64-unknown-linux-gnu");
            assert_eq!(available, vec!["aarch64-linux-android".to_string()]);
        },
        _ => panic!("expected no build info"),
    }
    let set = BuildInfoSet::find_all(vec![]).unwrap();
    assert!(matches!(Conan::new(None, set), Err(ConanError::MissingTarget)));
}

#[test]
fn env_source_for_every_target() {
    let host = info("/h.json", &manifest("x86_64", "Linux", ""), vec![]);
    let other = info("/o.json", &manifest("armv7", "Android", ""), vec![]);
    let set = BuildInfoSet::find_all(vec![host, other]).unwrap();
    let conan = Conan::with_host("x86_64-unknown-linux-gnu".to_string(), set);
    let (sh, ps1) = conan.generate_env_source();
    assert_eq!(
        sh,
        "export x86_64_unknown_linux_gnu_CONANBUILDINFO=/h.json\nexport armv7_linux_androideabi_CONANBUILDINFO=/o.json\n"
    );
    assert_eq!(
        ps1,
        "$env:x86_64_unknown_linux_gnu_CONANBUILDINFO=\"/h.json\"\n$env:armv7_linux_androideabi_CONANBUILDINFO=\"/o.json\"\n"
    );
}

#[test]
fn shared_option() {
    let opts = vec![
        ("zlib:shared".to_string(), "True".to_string()),
        ("bz:shared".to_string(), "FALSE".to_string()),
        ("odd:shared".to_string(), "yes".to_string()),
    ];
    assert_eq!(Conan::package_is_shared(&opts, "zlib").unwrap(), Some(true));
    assert_eq!(Conan::package_is_shared(&opts, "bz").unwrap(), Some(false));
    assert_eq!(Conan::package_is_shared(&opts, "none").unwrap(), None);
    assert!(matches!(Conan::package_is_shared(&opts, "odd"), Err(ConanError::InvalidOption { .. })));
    assert_eq!(parse_bool_flag("true"), Some(true));
    assert_eq!(parse_bool_flag("True"), None);
}
