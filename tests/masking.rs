use chef::version_masking::{mask_local_crate_versions, parse_local_crate_names, ParsedManifest};
use chef::TomlValue;

fn s(x: &str) -> TomlValue {
    TomlValue::Str(x.to_string())
}

fn table(entries: Vec<(&str, TomlValue)>) -> TomlValue {
    TomlValue::Table(entries.into_iter().map(|(k, v)| (k.to_string(), v)).collect())
}

fn get<'a>(v: &'a TomlValue, path: &[&str]) -> &'a TomlValue {
    let mut cur = v;
    for key in path {
        cur = cur.get(key).unwrap_or_else(|| panic!("missing {}", key));
    }
    cur
}

fn manifest(path: &str, contents: TomlValue) -> ParsedManifest {
    ParsedManifest { relative_path: path.to_string(), contents, targets: vec![] }
}

/// Workspace with `a` depending on `b` renamed as `c`, both depending on
/// the registry package `u`.
fn renamed_workspace() -> (Vec<ParsedManifest>, Option<TomlValue>) {
    let a = table(vec![
        ("package", table(vec![("name", s("a")), ("version", s("0.3.0"))])),
        (
            "dependencies",
            table(vec![
                ("c", table(vec![("package", s("b")), ("path", s("../b")), ("version", s("0.2.1"))])),
                ("u", table(vec![("version", s("1.4.0"))])),
            ]),
        ),
    ]);
    let b = table(vec![
        ("package", table(vec![("name", s("b")), ("version", s("0.2.1"))])),
        ("dependencies", table(vec![("u", s("1.4.0"))])),
    ]);
    let lock = table(vec![(
        "package",
        TomlValue::Array(vec![
            table(vec![("name", s("a")), ("version", s("0.3.0"))]),
            table(vec![("name", s("b")), ("version", s("0.2.1"))]),
            table(vec![
                ("name", s("u")),
                ("version", s("1.4.0")),
                ("source", s("registry+https://github.com/rust-lang/crates.io-index")),
            ]),
        ]),
    )]);
    (vec![manifest("a/Cargo.toml", a), manifest("b/Cargo.toml", b)], Some(lock))
}

#[test]
fn local_names_are_the_declared_packages() {
    let (manifests, _) = renamed_workspace();
    let names = parse_local_crate_names(&manifests);
    assert_eq!(names, vec!["a".to_string(), "b".to_string()]);
}

#[test]
fn renamed_local_dependencies() {
    let (mut manifests, mut lock) = renamed_workspace();
    mask_local_crate_versions(&mut manifests, &mut lock);
    let a = &manifests[0].contents;
    let b = &manifests[1].contents;
    assert_eq!(get(a, &["package", "version"]), &s("0.0.1"));
    assert_eq!(get(b, &["package", "version"]), &s("0.0.1"));
    assert_eq!(get(a, &["dependencies", "c", "version"]), &s("0.0.1"));
    assert_eq!(get(a, &["dependencies", "c", "path"]), &s("../b"));
    assert_eq!(get(a, &["dependencies", "u", "version"]), &s("1.4.0"));
    assert_eq!(get(b, &["dependencies", "u"]), &s("1.4.0"));
    let packages = match get(lock.as_ref().unwrap(), &["package"]) {
        TomlValue::Array(p) => p,
        _ => panic!("lockfile packages"),
    };
    assert_eq!(get(&packages[0], &["version"]), &s("0.0.1"));
    assert_eq!(get(&packages[1], &["version"]), &s("0.0.1"));
    assert_eq!(get(&packages[2], &["version"]), &s("1.4.0"));
}

#[test]
fn local_and_registry_entries_with_one_name() {
    let mut manifests = vec![manifest(
        "without/Cargo.toml",
        table(vec![("package", table(vec![("name", s("without")), ("version", s("0.1.0"))]))]),
    )];
    let mut lock = Some(table(vec![(
        "package",
        TomlValue::Array(vec![
            table(vec![("name", s("without")), ("version", s("0.1.0"))]),
            table(vec![
                ("name", s("without")),
                ("version", s("0.2.0")),
                ("source", s("registry+https://github.com/rust-lang/crates.io-index")),
            ]),
        ]),
    )]));
    mask_local_crate_versions(&mut manifests, &mut lock);
    let packages = match get(lock.as_ref().unwrap(), &["package"]) {
        TomlValue::Array(p) => p,
        _ => panic!("lockfile packages"),
    };
    assert_eq!(get(&packages[0], &["version"]), &s("0.0.1"));
    assert_eq!(get(&packages[1], &["version"]), &s("0.2.0"));
}

#[test]
fn mask_workspace_dependencies() {
    let root = table(vec![(
        "workspace",
        table(vec![
            ("members", TomlValue::Array(vec![s("project_a"), s("project_b")])),
            ("package", table(vec![("version", s("0.2.0"))])),
            (
                "dependencies",
                table(vec![
                    ("project_a", table(vec![("path", s("project_a")), ("version", s("0.2.0"))])),
                    ("anyhow", s("1.0.66")),
                ]),
            ),
        ]),
    )]);
    let a = table(vec![
        ("package", table(vec![("name", s("project_a")), ("version", table(vec![("workspace", TomlValue::Bool(true))]))])),
        (
            "target",
            table(vec![(
                "cfg(windows)",
                table(vec![("dev-dependencies", table(vec![("project_a", table(vec![("version", s("0.2.0"))]))]))]),
            )]),
        ),
    ]);
    let mut manifests = vec![manifest("Cargo.toml", root), manifest("project_a/Cargo.toml", a)];
    let mut lock = None;
    mask_local_crate_versions(&mut manifests, &mut lock);
    assert!(lock.is_none());
    let root = &manifests[0].contents;
    assert_eq!(get(root, &["workspace", "package", "version"]), &s("0.0.1"));
    assert_eq!(get(root, &["workspace", "dependencies", "project_a", "version"]), &s("0.0.1"));
    assert_eq!(get(root, &["workspace", "dependencies", "anyhow"]), &s("1.0.66"));
    let a = &manifests[1].contents;
    assert_eq!(
        get(a, &["package", "version"]),
        &table(vec![("workspace", TomlValue::Bool(true))])
    );
    assert_eq!(
        get(a, &["target", "cfg(windows)", "dev-dependencies", "project_a", "version"]),
        &s("0.0.1")
    );
    assert_eq!(manifests[1].relative_path, "project_a/Cargo.toml");
}

#[test]
fn end_to_end_versions() {
    let lib_pkg = table(vec![("package", table(vec![("name", s("lib_pkg")), ("version", s("1.2.3"))]))]);
    let bin_pkg = table(vec![
        ("package", table(vec![("name", s("bin_pkg")), ("version", s("0.1.0"))])),
        ("dependencies", table(vec![("lib_pkg", table(vec![("path", s("../lib_pkg")), ("version", s("1.2.3"))]))])),
    ]);
    let mut manifests = vec![manifest("lib_pkg/Cargo.toml", lib_pkg), manifest("bin_pkg/Cargo.toml", bin_pkg)];
    let mut lock = None;
    mask_local_crate_versions(&mut manifests, &mut lock);
    assert_eq!(get(&manifests[0].contents, &["package", "version"]), &s("0.0.1"));
    assert_eq!(get(&manifests[1].contents, &["package", "version"]), &s("0.0.1"));
    assert_eq!(get(&manifests[1].contents, &["dependencies", "lib_pkg", "version"]), &s("0.0.1"));
}
