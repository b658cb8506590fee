use conan_build::manifest::{classify_file_name, dll_path_for, find_all_libs};
use conan_build::{parse_build_info, BuildInfo, BuildInfoDoc, ConanError, LibFile, Link};

fn package_json(name: &str, libs: &[&str], lib_paths: &[&str], bin_paths: &[&str], root: &str) -> String {
    let list = |xs: &[&str]| {
        let quoted: Vec<String> = xs.iter().map(|x| format!("\"{}\"", x.replace('\\', "\\\\"))).collect();
        format!("[{}]", quoted.join(","))
    };
    format!(
        "{{\"name\":\"{}\",\"libs\":{},\"lib_paths\":{},\"include_paths\":[\"{}/include\"],\"bin_paths\":{},\"rootpath\":\"{}\"}}",
        name,
        list(libs),
        list(lib_paths),
        root,
        list(bin_paths),
        root
    )
}

fn manifest_json(settings: &str, packages: &[String]) -> String {
    format!("{{\"settings\":{},\"dependencies\":[{}]}}", settings, packages.join(","))
}

fn linux_settings() -> &'static str {
    "{\"arch\":\"x86_64\",\"os\":\"Linux\",\"build_type\":\"Release\"}"
}

fn doc(text: &str) -> BuildInfoDoc {
    match parse_build_info(text) {
        Ok(d) => d,
        Err(e) => panic!("manifest refused: {:?}", e),
    }
}

fn file(name: &str, dll_present: bool) -> LibFile {
    LibFile { file_name: name.to_string(), dll_present }
}

fn zeromq_manifest() -> String {
    manifest_json(linux_settings(), &[package_json("zeromq", &["zmq"], &["/opt/zmq/lib"], &["/opt/zmq/bin"], "/opt/zmq")])
}

#[test]
fn shared_object_classifies_shared() {
    let info = BuildInfo::read_build_info("/b/conanbuildinfo.json".to_string(), doc(&zeromq_manifest()), &vec![file("libzmq.so", false)]);
    assert!(info.is_shared("zmq"));
    let request = info.get_depends_on(&vec!["zeromq".to_string()]).unwrap();
    assert_eq!(request.libs.len(), 1);
    assert_eq!(request.libs[0].name, "zmq");
    assert!(!request.libs[0].is_static);
    assert_eq!(request.libdirs.len(), 1);
    assert_eq!(request.libdirs[0].0, "/opt/zmq/lib");
}

#[test]
fn static_archive_classifies_static() {
    let info = BuildInfo::read_build_info("/b/conanbuildinfo.json".to_string(), doc(&zeromq_manifest()), &vec![file("libzmq.a", false)]);
    assert!(!info.is_shared("zmq"));
    let request = info.get_depends_on(&vec!["zeromq".to_string()]).unwrap();
    assert_eq!(request.libs[0].name, "zmq");
    assert!(request.libs[0].is_static);
}

#[test]
fn import_library_with_dll_is_shared() {
    assert!(matches!(classify_file_name("foo.lib", true), Some((ref n, Link::Shared)) if n == "foo"));
    assert!(matches!(classify_file_name("foo.lib", false), Some((ref n, Link::Static)) if n == "foo"));
    assert_eq!(dll_path_for("C:/pkg/lib", "foo.lib"), Some("C:/pkg/bin/foo.dll".to_string()));
    assert_eq!(dll_path_for("/opt/foo/lib/", "foo.lib"), Some("/opt/foo/bin/foo.dll".to_string()));
    assert_eq!(dll_path_for("/opt/foo/lib", "libfoo.a"), None);
    assert_eq!(dll_path_for("C:\\pkg\\lib", "foo.lib"), Some("C:\\pkg/bin/foo.dll".to_string()));
    assert_eq!(dll_path_for("lib", "foo.lib"), Some("bin/foo.dll".to_string()));
}

#[test]
fn import_library_keeps_its_lib_prefix() {
    assert!(matches!(classify_file_name("libcrypto.lib", false), Some((ref n, Link::Static)) if n == "libcrypto"));
}

#[test]
fn unix_names_are_normalised() {
    assert!(matches!(classify_file_name("libfoo.so", false), Some((ref n, Link::Shared)) if n == "foo"));
    assert!(matches!(classify_file_name("bar.a", false), Some((ref n, Link::Static)) if n == "bar"));
    assert!(matches!(classify_file_name("libfoo.1.so", false), Some((ref n, Link::Shared)) if n == "foo.1"));
    assert!(classify_file_name("README.txt", false).is_none());
    assert!(classify_file_name("pkgconfig", false).is_none());
}

#[test]
fn versioned_shared_objects_are_shared() {
    assert!(matches!(classify_file_name("libfoo.so.1", false), Some((ref n, Link::Shared)) if n == "foo"));
    assert!(matches!(classify_file_name("libfoo.so.1.2.3", false), Some((ref n, Link::Shared)) if n == "foo"));
    assert!(matches!(classify_file_name("bar.so.10", false), Some((ref n, Link::Shared)) if n == "bar"));
    assert!(classify_file_name("libfoo.so.debug", false).is_none());
    assert!(classify_file_name("libfoo.so.", false).is_none());
    let kinds = find_all_libs(&vec![file("libfoo.so.1", false)]);
    assert_eq!(kinds.len(), 1);
    assert_eq!(kinds[0].0, "foo");
    assert_eq!(kinds[0].1, Link::Shared);
}

#[test]
fn later_file_of_a_name_wins() {
    let kinds = find_all_libs(&vec![file("libz.a", false), file("libz.so", false), file("notes.txt", false)]);
    assert_eq!(kinds.len(), 1);
    assert_eq!(kinds[0].0, "z");
    assert_eq!(kinds[0].1, Link::Shared);
    let kinds = find_all_libs(&vec![file("libz.so", false), file("libz.a", false)]);
    assert_eq!(kinds[0].1, Link::Static);
}

#[test]
fn classifying_twice_gives_the_same_kinds() {
    let files = vec![file("liba.so", false), file("libb.a", false), file("c.lib", true)];
    let twice = vec![
        file("liba.so", false), file("libb.a", false), file("c.lib", true),
        file("liba.so", false), file("libb.a", false), file("c.lib", true),
    ];
    let once = find_all_libs(&files);
    let again = find_all_libs(&files);
    let doubled = find_all_libs(&twice);
    assert_eq!(once.len(), 3);
    for ((a, b), c) in once.iter().zip(again.iter()).zip(doubled.iter()) {
        assert_eq!(a.0, b.0);
        assert_eq!(a.1, b.1);
        assert_eq!(a.0, c.0);
        assert_eq!(a.1, c.1);
    }
}

#[test]
fn unknown_library_defaults_to_shared() {
    let info = BuildInfo::read_build_info("/b/conanbuildinfo.json".to_string(), doc(&zeromq_manifest()), &vec![]);
    assert!(info.is_shared("zmq"));
    let request = info.get_depends_on(&vec!["zeromq".to_string()]).unwrap();
    assert!(!request.libs[0].is_static);
}

#[test]
fn libstdcxx11_maps_to_stdcxx() {
    let settings = "{\"arch\":\"x86_64\",\"os\":\"Linux\",\"compiler.libcxx\":\"libstdc++11\"}";
    let info = BuildInfo::read_build_info("/b/m.json".to_string(), doc(&manifest_json(settings, &[])), &vec![]);
    let lib = info.libcxx().unwrap();
    assert_eq!(lib.name, "stdc++");
    assert!(!lib.is_static);
}

#[test]
fn libcxx_variants() {
    let with = |v: &str| {
        let settings = format!("{{\"arch\":\"x86_64\",\"os\":\"Linux\",\"compiler.libcxx\":\"{}\"}}", v);
        BuildInfo::read_build_info("/b/m.json".to_string(), doc(&manifest_json(&settings, &[])), &vec![]).libcxx_name()
    };
    assert_eq!(with("libstdc++"), Some("stdc++".to_string()));
    assert_eq!(with("libc++"), Some("c++".to_string()));
    assert_eq!(with("c++"), Some("c++".to_string()));
    let info = BuildInfo::read_build_info("/b/m.json".to_string(), doc(&manifest_json(linux_settings(), &[])), &vec![]);
    assert!(info.libcxx().is_none());
}

#[test]
fn missing_required_package_is_an_error() {
    let info = BuildInfo::read_build_info("/b/m.json".to_string(), doc(&zeromq_manifest()), &vec![]);
    match info.get_depends_on(&vec!["zeromq".to_string(), "nope".to_string(), "other".to_string()]) {
        Err(ConanError::MissingDependency(n)) => assert_eq!(n, "nope"),
        _ => panic!("expected a missing dependency"),
    }
    let optional = info.get_depends_on_optional(&vec!["nope".to_string()]);
    assert!(optional.libs.is_empty());
    assert!(optional.libdirs.is_empty());
    assert!(matches!(info.package("nope"), Err(ConanError::MissingDependency(_))));
    assert!(info.try_package("nope").is_none());
}

#[test]
fn resolving_in_one_request_concatenates() {
    let text = manifest_json(
        linux_settings(),
        &[
            package_json("a", &["a1", "a2"], &["/a/lib"], &[], "/a"),
            package_json("b", &["b1"], &["/b/lib", "/b/lib64"], &[], "/b"),
        ],
    );
    let info = BuildInfo::read_build_info("/m.json".to_string(), doc(&text), &vec![file("liba2.a", false)]);
    let both = info.get_depends_on(&vec!["a".to_string(), "b".to_string()]).unwrap();
    let mut a = info.get_depends_on(&vec!["a".to_string()]).unwrap();
    let b = info.get_depends_on(&vec!["b".to_string()]).unwrap();
    a.extend(b);
    let names = |d: &conan_build::DependsOn| d.libs.iter().map(|l| (l.name.clone(), l.is_static)).collect::<Vec<_>>();
    let dirs = |d: &conan_build::DependsOn| d.libdirs.iter().map(|l| l.0.clone()).collect::<Vec<_>>();
    assert_eq!(names(&both), names(&a));
    assert_eq!(dirs(&both), dirs(&a));
    assert_eq!(names(&both), vec![("a1".to_string(), false), ("a2".to_string(), true), ("b1".to_string(), false)]);
    assert_eq!(dirs(&both), vec!["/a/lib".to_string(), "/b/lib".to_string(), "/b/lib64".to_string()]);
    assert_eq!(info.libdir_for("b").unwrap(), vec!["/b/lib".to_string(), "/b/lib64".to_string()]);
    assert!(info.bindir_for("a").unwrap().is_empty());
    assert!(matches!(info.libdir_for("c"), Err(ConanError::MissingDependency(ref n)) if n == "c"));
    assert!(matches!(info.rootpath_for("c"), Err(ConanError::MissingDependency(_))));
}

#[test]
fn duplicate_package_last_wins() {
    let text = manifest_json(
        linux_settings(),
        &[
            package_json("a", &["old"], &[], &[], "/old"),
            package_json("b", &["b"], &[], &[], "/b"),
            package_json("a", &["new"], &[], &[], "/new"),
        ],
    );
    let info = BuildInfo::read_build_info("/m.json".to_string(), doc(&text), &vec![]);
    assert_eq!(info.all_deps(), vec!["a".to_string(), "b".to_string()]);
    assert_eq!(info.libs_for("a").unwrap(), vec!["new".to_string()]);
    assert_eq!(info.rootpath_for("a").unwrap(), "/new");
    assert_eq!(info.includes_for("b").unwrap(), vec!["/b/include".to_string()]);
}

#[test]
fn parse_errors() {
    assert!(matches!(parse_build_info("{not json"), Err(ConanError::InvalidJson)));
    assert!(matches!(parse_build_info("{\"settings\":{}}"), Err(ConanError::InvalidManifest)));
    assert!(matches!(parse_build_info("{\"settings\":[],\"dependencies\":[]}"), Err(ConanError::InvalidManifest)));
    assert!(matches!(
        parse_build_info("{\"settings\":{\"arch\":1},\"dependencies\":[]}"),
        Err(ConanError::InvalidManifest)
    ));
    assert!(matches!(
        parse_build_info("{\"settings\":{},\"dependencies\":[{\"name\":\"x\"}]}"),
        Err(ConanError::InvalidManifest)
    ));
    assert!(parse_build_info("{\"settings\":{},\"dependencies\":[]}").is_ok());
}

#[test]
fn lib_dirs_in_package_order() {
    let text = manifest_json(
        linux_settings(),
        &[package_json("a", &[], &["/a/1", "/a/2"], &[], "/a"), package_json("b", &[], &["/b"], &[], "/b")],
    );
    assert_eq!(doc(&text).lib_dirs(), vec!["/a/1".to_string(), "/a/2".to_string(), "/b".to_string()]);
}
