use chef::target::{harness_of, placeholder_content, MAIN_ENTRYPOINT, NO_STD_ENTRYPOINT, NO_STD_HARNESS_ENTRYPOINT};
use chef::text::{join, parent_dir};
use chef::{Manifest, RustToolchainFile, ScaffoldFile, Skeleton, Target, TargetKind, TomlValue};

fn s(x: &str) -> TomlValue {
    TomlValue::Str(x.to_string())
}

fn table(entries: Vec<(&str, TomlValue)>) -> TomlValue {
    TomlValue::Table(entries.into_iter().map(|(k, v)| (k.to_string(), v)).collect())
}

fn target(path: &str, kind: TargetKind, name: &str) -> Target {
    Target { path: path.to_string(), kind, name: name.to_string() }
}

fn find<'a>(files: &'a [ScaffoldFile], path: &str) -> &'a str {
    &files.iter().find(|f| f.path == path).unwrap_or_else(|| panic!("no file {}", path)).contents
}

fn test_package() -> (Skeleton, Vec<TomlValue>) {
    let parsed = table(vec![
        ("package", table(vec![("name", s("foo")), ("version", s("0.0.1"))])),
        (
            "test",
            TomlValue::Array(vec![
                table(vec![("name", s("bar")), ("path", s("tests/bar.rs")), ("harness", TomlValue::Bool(false))]),
            ]),
        ),
    ]);
    let manifest = Manifest {
        relative_path: "Cargo.toml".to_string(),
        contents: "[package]\nname = \"foo\"\n".to_string(),
        targets: vec![
            target("src/main.rs", TargetKind::Bin, "foo"),
            target("tests/bar.rs", TargetKind::Test, "bar"),
            target("tests/foo.rs", TargetKind::Test, "foo"),
        ],
    };
    let skeleton = Skeleton {
        manifests: vec![manifest],
        config_file: None,
        lock_file: Some("# lock\n".to_string()),
        rust_toolchain_file: None,
    };
    (skeleton, vec![parsed])
}

#[test]
fn tests_and_binaries_hosted() {
    let (skeleton, parsed) = test_package();
    let files = skeleton.build_minimum_project(&parsed, false, &vec![]);
    assert_eq!(find(&files, "Cargo.lock"), "# lock\n");
    assert_eq!(find(&files, "Cargo.toml"), "[package]\nname = \"foo\"\n");
    assert_eq!(find(&files, "src/main.rs"), "fn main() {}");
    assert_eq!(find(&files, "tests/foo.rs"), "");
    assert_eq!(find(&files, "tests/bar.rs"), "fn main() {}");
    assert_eq!(files.len(), 5);
}

#[test]
fn tests_and_binaries_no_std() {
    let (skeleton, parsed) = test_package();
    let files = skeleton.build_minimum_project(&parsed, true, &vec![]);
    assert_eq!(
        find(&files, "src/main.rs"),
        "#![no_std]\n#![no_main]\n\n#[panic_handler]\nfn panic(_: &core::panic::PanicInfo) -> ! {\n    loop {}\n}\n"
    );
    assert_eq!(find(&files, "tests/bar.rs"), NO_STD_ENTRYPOINT);
    assert_eq!(find(&files, "tests/foo.rs"), NO_STD_HARNESS_ENTRYPOINT);
    assert!(NO_STD_HARNESS_ENTRYPOINT.contains("#![test_runner(test_runner)]"));
}

#[test]
fn prelude_files_in_order() {
    let skeleton = Skeleton {
        manifests: vec![],
        config_file: Some("[build]\n".to_string()),
        lock_file: Some("lock".to_string()),
        rust_toolchain_file: Some((RustToolchainFile::Toml, "[toolchain]\nchannel = \"1.75.0\"\n".to_string())),
    };
    let files = skeleton.build_minimum_project(&vec![], false, &vec![]);
    let paths: Vec<&str> = files.iter().map(|f| f.path.as_str()).collect();
    assert_eq!(paths, vec!["Cargo.lock", "rust-toolchain.toml", ".cargo/config.toml"]);
    assert_eq!(files[1].contents, "[toolchain]\nchannel = \"1.75.0\"\n");
    let bare = Skeleton {
        manifests: vec![],
        config_file: None,
        lock_file: None,
        rust_toolchain_file: Some((RustToolchainFile::Bare, "1.75.0".to_string())),
    };
    let files = bare.build_minimum_project(&vec![], false, &vec![]);
    assert_eq!(files, vec![ScaffoldFile { path: "rust-toolchain".to_string(), contents: "1.75.0".to_string() }]);
}

#[test]
fn workspace_members_and_ignored_manifests() {
    let lib = Manifest {
        relative_path: "src/project_b/Cargo.toml".to_string(),
        contents: "[package]\nname = \"project_b\"\n".to_string(),
        targets: vec![
            target("src/lib.rs", TargetKind::Lib { is_proc_macro: false }, "project_b"),
            target("build.rs", TargetKind::BuildScript, "build-script-build"),
        ],
    };
    let bin = Manifest {
        relative_path: "src/project_a/Cargo.toml".to_string(),
        contents: "[package]\nname = \"project_a\"\n".to_string(),
        targets: vec![target("src/main.rs", TargetKind::Bin, "test-dummy")],
    };
    let skeleton = Skeleton { manifests: vec![bin, lib], config_file: None, lock_file: None, rust_toolchain_file: None };
    let parsed = vec![table(vec![]), table(vec![])];
    let files = skeleton.build_minimum_project(&parsed, true, &vec![]);
    assert_eq!(find(&files, "src/project_a/src/main.rs"), NO_STD_ENTRYPOINT);
    assert_eq!(find(&files, "src/project_b/src/lib.rs"), "#![no_std]");
    assert_eq!(find(&files, "src/project_b/build.rs"), "fn main() {}");
    let files = skeleton.build_minimum_project(&parsed, false, &vec!["src/project_a/Cargo.toml".to_string()]);
    assert!(files.iter().all(|f| !f.path.starts_with("src/project_a")));
    assert_eq!(find(&files, "src/project_b/src/lib.rs"), "");
}

#[test]
fn proc_macro_library_stays_empty() {
    assert_eq!(placeholder_content(TargetKind::Lib { is_proc_macro: true }, true, true), "");
    assert_eq!(placeholder_content(TargetKind::Lib { is_proc_macro: false }, true, true), "#![no_std]");
    assert_eq!(placeholder_content(TargetKind::Example, false, true), MAIN_ENTRYPOINT);
    assert_eq!(placeholder_content(TargetKind::Example, true, true), NO_STD_ENTRYPOINT);
    assert_eq!(placeholder_content(TargetKind::BuildScript, true, false), "fn main() {}");
    assert_eq!(placeholder_content(TargetKind::Bench, false, true), "");
    assert_eq!(placeholder_content(TargetKind::Bench, false, false), "fn main() {}");
}

#[test]
fn harness_flag_lookup() {
    let contents = table(vec![(
        "bench",
        TomlValue::Array(vec![
            table(vec![("name", s("basics")), ("harness", TomlValue::Bool(false))]),
            table(vec![("name", s("other"))]),
        ]),
    )]);
    assert!(!harness_of(&contents, TargetKind::Bench, "basics"));
    assert!(harness_of(&contents, TargetKind::Bench, "other"));
    assert!(harness_of(&contents, TargetKind::Bench, "missing"));
    assert!(harness_of(&contents, TargetKind::Test, "basics"));
    assert!(harness_of(&contents, TargetKind::Bin, "basics"));
}

#[test]
fn end_to_end_scaffold() {
    let lib_pkg = Manifest {
        relative_path: "lib_pkg/Cargo.toml".to_string(),
        contents: "[package]\nname = \"lib_pkg\"\nversion = \"0.0.1\"\n".to_string(),
        targets: vec![target("src/lib.rs", TargetKind::Lib { is_proc_macro: false }, "lib_pkg")],
    };
    let bin_pkg = Manifest {
        relative_path: "bin_pkg/Cargo.toml".to_string(),
        contents: "[package]\nname = \"bin_pkg\"\nversion = \"0.0.1\"\n".to_string(),
        targets: vec![target("src/main.rs", TargetKind::Bin, "bin_pkg")],
    };
    let skeleton = Skeleton { manifests: vec![bin_pkg, lib_pkg], config_file: None, lock_file: None, rust_toolchain_file: None };
    let files = skeleton.build_minimum_project(&vec![table(vec![]), table(vec![])], false, &vec![]);
    assert_eq!(find(&files, "lib_pkg/src/lib.rs"), "");
    assert_eq!(find(&files, "bin_pkg/src/main.rs"), "fn main() {}");
}

#[test]
fn relative_path_helpers() {
    assert_eq!(parent_dir("a/b/Cargo.toml"), "a/b");
    assert_eq!(parent_dir("Cargo.toml"), "");
    assert_eq!(join("", "src/main.rs"), "src/main.rs");
    assert_eq!(join("crates/a", "src/lib.rs"), "crates/a/src/lib.rs");
}
