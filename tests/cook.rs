use chef::reclaim::{crate_name, output_directories, profile_dir, target_str, ArtifactGlob};
use chef::recipe::{build_arguments, comma_join, feature_set, select_command, select_profile};
use chef::{
    AllFeatures, CommandArg, CookArgs, DefaultFeatures, Manifest, OptimisationProfile, Skeleton,
    Target, TargetArgs, TargetKind, TomlValue,
};

fn args(command: CommandArg) -> CookArgs {
    CookArgs {
        profile: OptimisationProfile::Debug,
        command,
        default_features: DefaultFeatures::Enabled,
        all_features: AllFeatures::Disabled,
        features: None,
        unstable_features: None,
        target: None,
        target_dir: None,
        target_args: TargetArgs { benches: false, tests: false, examples: false, all_targets: false },
        manifest_path: None,
        ignore_manifest: None,
        package: None,
        workspace: false,
        offline: false,
        locked: false,
        frozen: false,
        verbose: false,
        timings: false,
        no_std: false,
        bin: None,
        bins: false,
        no_build: false,
    }
}

fn strings(v: &[&str]) -> Vec<String> {
    v.iter().map(|s| s.to_string()).collect()
}

#[test]
fn plain_build_arguments() {
    assert_eq!(build_arguments(&args(CommandArg::Build)), Some(strings(&["build"])));
    assert_eq!(build_arguments(&args(CommandArg::Zigbuild)), Some(strings(&["zigbuild"])));
    assert_eq!(build_arguments(&args(CommandArg::NoBuild)), None);
}

#[test]
fn full_build_arguments() {
    let mut a = args(CommandArg::Check);
    a.profile = OptimisationProfile::Other("custom".to_string());
    a.default_features = DefaultFeatures::Disabled;
    a.all_features = AllFeatures::Enabled;
    a.features = Some(strings(&["x", "y"]));
    a.unstable_features = Some(strings(&["build-std"]));
    a.target = Some(strings(&["x86_64-unknown-linux-gnu", "wasm32-unknown-unknown"]));
    a.target_dir = Some("out".to_string());
    a.target_args = TargetArgs { benches: true, tests: true, examples: true, all_targets: true };
    a.manifest_path = Some("sub/Cargo.toml".to_string());
    a.package = Some(strings(&["p"]));
    a.bin = Some(strings(&["b1", "b2"]));
    a.workspace = true;
    a.offline = true;
    a.frozen = true;
    a.locked = true;
    a.verbose = true;
    a.timings = true;
    a.bins = true;
    let expected = strings(&[
        "check", "--profile", "custom", "--no-default-features", "--features", "x,y", "--all-features",
        "-Z", "build-std", "--target", "x86_64-unknown-linux-gnu", "--target", "wasm32-unknown-unknown",
        "--target-dir", "out", "--benches", "--tests", "--examples", "--all-targets", "--manifest-path",
        "sub/Cargo.toml", "--package", "p", "--bin", "b1", "--bin", "b2", "--workspace", "--offline",
        "--frozen", "--locked", "--verbose", "--timings", "--bins",
    ]);
    assert_eq!(build_arguments(&a), Some(expected));
    let mut r = args(CommandArg::Clippy);
    r.profile = OptimisationProfile::Release;
    assert_eq!(build_arguments(&r), Some(strings(&["clippy", "--release"])));
}

#[test]
fn profile_and_command_selection() {
    assert_eq!(select_profile(false, None), Some(OptimisationProfile::Debug));
    assert_eq!(select_profile(true, None), Some(OptimisationProfile::Release));
    assert_eq!(select_profile(false, Some("dev".to_string())), Some(OptimisationProfile::Debug));
    assert_eq!(select_profile(false, Some("release".to_string())), Some(OptimisationProfile::Release));
    assert_eq!(
        select_profile(false, Some("bench".to_string())),
        Some(OptimisationProfile::Other("bench".to_string()))
    );
    assert_eq!(select_profile(true, Some("dev".to_string())), None);
    assert_eq!(select_command(false, false, false, false), Some(CommandArg::Build));
    assert_eq!(select_command(true, false, false, false), Some(CommandArg::Check));
    assert_eq!(select_command(false, false, false, true), Some(CommandArg::NoBuild));
    assert_eq!(select_command(true, true, false, false), None);
}

#[test]
fn features_as_a_set() {
    assert_eq!(feature_set(None), None);
    assert_eq!(feature_set(Some(vec![])), None);
    assert_eq!(feature_set(Some(strings(&["a", "b", "a", "c", "b"]))), Some(strings(&["a", "b", "c"])));
    assert_eq!(comma_join(&strings(&["a", "b", "c"])), "a,b,c");
    assert_eq!(comma_join(&vec![]), "");
}

#[test]
fn profile_directories() {
    assert_eq!(profile_dir(&OptimisationProfile::Release), "release");
    assert_eq!(profile_dir(&OptimisationProfile::Debug), "debug");
    assert_eq!(profile_dir(&OptimisationProfile::Other("bench".to_string())), "release");
    assert_eq!(profile_dir(&OptimisationProfile::Other("dev".to_string())), "debug");
    assert_eq!(profile_dir(&OptimisationProfile::Other("test".to_string())), "debug");
    assert_eq!(profile_dir(&OptimisationProfile::Other("ci".to_string())), "ci");
}

#[test]
fn custom_target_directories() {
    assert_eq!(target_str("x86_64-unknown-linux-gnu"), "x86_64-unknown-linux-gnu");
    assert_eq!(target_str("custom.json"), "custom");
    assert_eq!(target_str("custom.json.json"), "custom");
    assert_eq!(output_directories("/w/target", &OptimisationProfile::Release, &None), strings(&["/w/target/release"]));
    assert_eq!(
        output_directories("/w/target", &OptimisationProfile::Debug, &Some(strings(&["a.json", "b"]))),
        strings(&["/w/target/a/debug", "/w/target/b/debug"])
    );
    assert_eq!(crate_name("my-crate-name"), "my_crate_name");
}

fn s(x: &str) -> TomlValue {
    TomlValue::Str(x.to_string())
}

fn table(entries: Vec<(&str, TomlValue)>) -> TomlValue {
    TomlValue::Table(entries.into_iter().map(|(k, v)| (k.to_string(), v)).collect())
}

fn glob(root: &str, pattern: &str, include_dirs: bool) -> ArtifactGlob {
    ArtifactGlob { root: root.to_string(), pattern: pattern.to_string(), include_dirs }
}

#[test]
fn reclaim_only_local_names() {
    let local = Manifest {
        relative_path: "foo-bar/Cargo.toml".to_string(),
        contents: String::new(),
        targets: vec![Target { path: "src/lib.rs".to_string(), kind: TargetKind::Lib { is_proc_macro: false }, name: "foo_bar".to_string() }],
    };
    let with_build = Manifest {
        relative_path: "tool/Cargo.toml".to_string(),
        contents: String::new(),
        targets: vec![Target { path: "src/main.rs".to_string(), kind: TargetKind::Bin, name: "tool".to_string() }],
    };
    let workspace_root = Manifest { relative_path: "Cargo.toml".to_string(), contents: String::new(), targets: vec![] };
    let skeleton = Skeleton { manifests: vec![workspace_root, local, with_build], config_file: None, lock_file: None, rust_toolchain_file: None };
    let parsed = vec![
        table(vec![("workspace", table(vec![]))]),
        table(vec![("package", table(vec![("name", s("foo-bar"))]))]),
        table(vec![("package", table(vec![("name", s("tool")), ("build", s("build.rs"))]))]),
    ];
    let globs = skeleton.remove_compiled_dummies(&parsed, "/w", &OptimisationProfile::Release, &None, &None);
    assert_eq!(
        globs,
        vec![
            glob("/w/target/release", "/**/libfoo_bar.*", true),
            glob("/w/target/release", "/**/libfoo_bar-*", true),
            glob("/w/target/release", "/build/tool-*/build[-_]script[-_]build*", false),
        ]
    );
    // An external `foo` never gets a pattern: `libfoo.rlib` is not matched by
    // `libfoo_bar.*`.
    assert!(globs.iter().all(|g| !g.pattern.contains("libfoo.") && !g.pattern.contains("libfoo-")));
    let globs = skeleton.remove_compiled_dummies(
        &parsed,
        "/w",
        &OptimisationProfile::Debug,
        &Some(strings(&["t1", "t2.json"])),
        &Some("/out".to_string()),
    );
    assert_eq!(globs.len(), 6);
    assert_eq!(globs[0], glob("/out/t1/debug", "/**/libfoo_bar.*", true));
    assert_eq!(globs[2], glob("/out/t2/debug", "/**/libfoo_bar.*", true));
    assert_eq!(globs[5], glob("/out/t2/debug", "/build/tool-*/build[-_]script[-_]build*", false));
}

#[test]
fn reclaim_uses_the_lib_section_name() {
    let m = Manifest { relative_path: "Cargo.toml".to_string(), contents: String::new(), targets: vec![] };
    let skeleton = Skeleton { manifests: vec![m], config_file: None, lock_file: None, rust_toolchain_file: None };
    let parsed = vec![table(vec![
        ("package", table(vec![("name", s("pkg")), ("build", TomlValue::Bool(false))])),
        ("lib", table(vec![("name", s("my-lib"))])),
    ])];
    let globs = skeleton.remove_compiled_dummies(&parsed, "/w", &OptimisationProfile::Debug, &None, &None);
    assert_eq!(
        globs,
        vec![glob("/w/target/debug", "/**/libmy_lib.*", true), glob("/w/target/debug", "/**/libmy_lib-*", true)]
    );
}
