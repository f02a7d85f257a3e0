use chef::metadata::{gather_targets, target_kind, workspace_manifests, PackageMetadata, TargetMetadata};
use chef::order::lex_cmp;
use chef::scope::{ignore_all_members_except, member_directory};
use chef::target::sorted_targets;
use chef::version_masking::ParsedManifest;
use chef::{Manifest, Recipe, RustToolchainFile, Skeleton, Target, TargetKind, TomlValue};

fn strings(v: &[&str]) -> Vec<String> {
    v.iter().map(|s| s.to_string()).collect()
}

fn meta_target(name: &str, kind: &[&str], crate_types: &[&str], src: &str) -> TargetMetadata {
    TargetMetadata { name: name.to_string(), kind: strings(kind), crate_types: strings(crate_types), src_path: src.to_string() }
}

fn bins(order: &[&str]) -> PackageMetadata {
    PackageMetadata {
        name: "test-dummy".to_string(),
        manifest_path: "/w/Cargo.toml".to_string(),
        targets: order.iter().map(|f| meta_target(f, &["bin"], &["bin"], &format!("/w/src/bin/{}.rs", f))).collect(),
    }
}

#[test]
fn test_auto_bin_ordering() {
    let a = gather_targets(&bins(&["f", "e", "d", "c", "b", "a"])).unwrap();
    let paths: Vec<&str> = a.iter().map(|t| t.path.as_str()).collect();
    assert_eq!(paths, vec!["src/bin/a.rs", "src/bin/b.rs", "src/bin/c.rs", "src/bin/d.rs", "src/bin/e.rs", "src/bin/f.rs"]);
    for _ in 0..5 {
        let b = gather_targets(&bins(&["c", "a", "f", "b", "e", "d", "a"])).unwrap();
        assert_eq!(a, b);
    }
}

#[test]
fn target_kinds_from_metadata() {
    assert_eq!(target_kind(&meta_target("x", &["bench"], &["bin"], "")), TargetKind::Bench);
    assert_eq!(target_kind(&meta_target("x", &["example"], &["rlib"], "")), TargetKind::Example);
    assert_eq!(target_kind(&meta_target("x", &["test"], &["bin"], "")), TargetKind::Test);
    assert_eq!(target_kind(&meta_target("x", &["bin"], &["bin"], "")), TargetKind::Bin);
    assert_eq!(target_kind(&meta_target("x", &["custom-build"], &["bin"], "")), TargetKind::BuildScript);
    assert_eq!(target_kind(&meta_target("x", &["cdylib"], &["cdylib"], "")), TargetKind::Lib { is_proc_macro: false });
    assert_eq!(target_kind(&meta_target("x", &["proc-macro"], &["proc-macro"], "")), TargetKind::Lib { is_proc_macro: true });
}

#[test]
fn targets_order_by_path_kind_name() {
    let t = |p: &str, k: TargetKind, n: &str| Target { path: p.to_string(), kind: k, name: n.to_string() };
    let sorted = sorted_targets(&vec![
        t("src/main.rs", TargetKind::Bin, "b"),
        t("src/lib.rs", TargetKind::Lib { is_proc_macro: false }, "x"),
        t("src/main.rs", TargetKind::Bin, "a"),
        t("src-x/main.rs", TargetKind::Bin, "a"),
        t("src/main.rs", TargetKind::Lib { is_proc_macro: false }, "z"),
        t("src/main.rs", TargetKind::Bin, "a"),
    ]);
    assert_eq!(
        sorted,
        vec![
            t("src/lib.rs", TargetKind::Lib { is_proc_macro: false }, "x"),
            t("src/main.rs", TargetKind::Lib { is_proc_macro: false }, "z"),
            t("src/main.rs", TargetKind::Bin, "a"),
            t("src/main.rs", TargetKind::Bin, "b"),
            t("src-x/main.rs", TargetKind::Bin, "a"),
        ]
    );
    assert_eq!(lex_cmp("a/b", "a-b", true), -1);
    assert_eq!(lex_cmp("a/b", "a-b", false), 1);
    assert_eq!(lex_cmp("same", "same", true), 0);
}

fn manifest(path: &str) -> Manifest {
    Manifest { relative_path: path.to_string(), contents: format!("# {}\n", path), targets: vec![] }
}

#[test]
fn test_recipe_is_deterministic() {
    let first = Recipe::prepare(
        vec![manifest("b/Cargo.toml"), manifest("Cargo.toml"), manifest("a-b/Cargo.toml"), manifest("a/Cargo.toml")],
        None,
        Some("lock".to_string()),
        Some((RustToolchainFile::Bare, "1.75.0".to_string())),
    );
    let paths: Vec<&str> = first.skeleton.manifests.iter().map(|m| m.relative_path.as_str()).collect();
    assert_eq!(paths, vec!["Cargo.toml", "a/Cargo.toml", "a-b/Cargo.toml", "b/Cargo.toml"]);
    for _ in 0..5 {
        let again = Recipe::prepare(
            vec![manifest("a/Cargo.toml"), manifest("b/Cargo.toml"), manifest("a-b/Cargo.toml"), manifest("Cargo.toml")],
            None,
            Some("lock".to_string()),
            Some((RustToolchainFile::Bare, "1.75.0".to_string())),
        );
        assert_eq!(first, again);
    }
    let skeleton = Skeleton::derive(vec![manifest("z/Cargo.toml"), manifest("Cargo.toml")], Some("cfg".to_string()), None, None);
    assert_eq!(skeleton.manifests[0].relative_path, "Cargo.toml");
    assert_eq!(skeleton.config_file, Some("cfg".to_string()));
}

fn s(x: &str) -> TomlValue {
    TomlValue::Str(x.to_string())
}

fn table(entries: Vec<(&str, TomlValue)>) -> TomlValue {
    TomlValue::Table(entries.into_iter().map(|(k, v)| (k.to_string(), v)).collect())
}

fn package(name: &str, manifest_path: &str) -> PackageMetadata {
    PackageMetadata { name: name.to_string(), manifest_path: manifest_path.to_string(), targets: vec![] }
}

#[test]
fn specify_member_in_workspace() {
    let root = table(vec![(
        "workspace",
        table(vec![
            ("members", TomlValue::Array(vec![s("backend"), s("ci")])),
            ("default-members", TomlValue::Array(vec![s("ci")])),
            ("resolver", s("2")),
        ]),
    )]);
    let backend = table(vec![("package", table(vec![("name", s("backend"))]))]);
    let mut manifests = vec![
        ParsedManifest { relative_path: "backend/Cargo.toml".to_string(), contents: backend, targets: vec![] },
        ParsedManifest { relative_path: "Cargo.toml".to_string(), contents: root, targets: vec![] },
    ];
    let packages = vec![package("backend", "/w/backend/Cargo.toml"), package("ci", "/w/ci/Cargo.toml")];
    assert_eq!(member_directory(&packages, "/w", "backend"), Some("backend".to_string()));
    assert_eq!(member_directory(&packages, "/w", "missing"), None);
    ignore_all_members_except(&mut manifests, &packages, "/w", "backend");
    assert_eq!(manifests.len(), 2);
    assert_eq!(
        manifests[1].contents,
        table(vec![(
            "workspace",
            table(vec![("members", TomlValue::Array(vec![s("backend")])), ("resolver", s("2"))]),
        )])
    );
    assert_eq!(manifests[0].contents, table(vec![("package", table(vec![("name", s("backend"))]))]));
}

#[test]
fn unknown_member_only_drops_default_members() {
    let root = table(vec![(
        "workspace",
        table(vec![
            ("members", TomlValue::Array(vec![s("a")])),
            ("default-members", TomlValue::Array(vec![s("a")])),
        ]),
    )]);
    let mut manifests = vec![ParsedManifest { relative_path: "Cargo.toml".to_string(), contents: root, targets: vec![] }];
    ignore_all_members_except(&mut manifests, &vec![package("a", "/w/a/Cargo.toml")], "/w", "b");
    assert_eq!(
        manifests[0].contents,
        table(vec![("workspace", table(vec![("members", TomlValue::Array(vec![s("a")]))]))])
    );
}

#[test]
fn workspace_manifest_locations() {
    let mut a = package("project_a", "/w/crates/project_a/Cargo.toml");
    a.targets = vec![
        meta_target("project_a", &["lib"], &["lib"], "/w/crates/project_a/src/lib.rs"),
        meta_target("build-script-build", &["custom-build"], &["bin"], "/w/crates/project_a/build.rs"),
    ];
    let b = package("project_b", "/w/vendored/project_b/Cargo.toml");
    let found = workspace_manifests(&vec![a.clone(), b, a], false, "/w").unwrap();
    let rel: Vec<&str> = found.iter().map(|m| m.relative_path.as_str()).collect();
    assert_eq!(rel, vec!["crates/project_a/Cargo.toml", "vendored/project_b/Cargo.toml", "Cargo.toml"]);
    assert_eq!(found[2].absolute_path, "/w/Cargo.toml");
    assert!(found[2].targets.is_empty());
    let paths: Vec<&str> = found[0].targets.iter().map(|t| t.path.as_str()).collect();
    assert_eq!(paths, vec!["build.rs", "src/lib.rs"]);
    let only = workspace_manifests(&vec![package("p", "/w/Cargo.toml")], true, "/w").unwrap();
    assert_eq!(only.len(), 1);
    assert_eq!(only[0].relative_path, "Cargo.toml");
    assert!(workspace_manifests(&vec![package("p", "relative/Cargo.toml")], true, "/w").is_none());
}
