use chef::document::{kind_document, kind_from_document, recipe_document, recipe_from_document, target_from_document};
use chef::{Manifest, Recipe, RustToolchainFile, Skeleton, Target, TargetKind, TomlValue};

fn sample(toolchain: Option<(RustToolchainFile, String)>, lock: Option<String>) -> Recipe {
    let targets = vec![
        Target { path: "src/lib.rs".to_string(), kind: TargetKind::Lib { is_proc_macro: true }, name: "m".to_string() },
        Target { path: "src/main.rs".to_string(), kind: TargetKind::Bin, name: "m".to_string() },
        Target { path: "benches/b.rs".to_string(), kind: TargetKind::Bench, name: "b".to_string() },
        Target { path: "build.rs".to_string(), kind: TargetKind::BuildScript, name: "build-script-build".to_string() },
    ];
    let manifests = vec![
        Manifest { relative_path: "Cargo.toml".to_string(), contents: "[workspace]\n".to_string(), targets: vec![] },
        Manifest { relative_path: "m/Cargo.toml".to_string(), contents: "[package]\nname = \"m\"\n".to_string(), targets },
    ];
    Recipe { skeleton: Skeleton { manifests, config_file: Some("[build]\n".to_string()), lock_file: lock, rust_toolchain_file: toolchain } }
}

#[test]
fn recipe_round_trip() {
    for recipe in [
        sample(Some((RustToolchainFile::Toml, "[toolchain]\n".to_string())), Some("lock".to_string())),
        sample(Some((RustToolchainFile::Bare, "1.75.0".to_string())), None),
        sample(None, None),
    ] {
        let document = recipe_document(&recipe);
        assert_eq!(recipe_from_document(&document), Some(recipe));
    }
}

#[test]
fn recipe_document_shape() {
    let recipe = sample(None, Some("lock".to_string()));
    let document = recipe_document(&recipe);
    let skeleton = document.get("skeleton").unwrap();
    assert_eq!(skeleton.get("lock_file"), Some(&TomlValue::Str("lock".to_string())));
    assert_eq!(skeleton.get("rust_toolchain_file"), None);
    assert_eq!(kind_document(TargetKind::Bin), TomlValue::Str("Bin".to_string()));
    assert_eq!(
        kind_document(TargetKind::Lib { is_proc_macro: false }),
        TomlValue::Table(vec![(
            "Lib".to_string(),
            TomlValue::Table(vec![("is_proc_macro".to_string(), TomlValue::Bool(false))])
        )])
    );
}

#[test]
fn malformed_documents_are_refused() {
    assert_eq!(kind_from_document(&TomlValue::Str("Binary".to_string())), None);
    assert_eq!(kind_from_document(&TomlValue::Str("Example".to_string())), Some(TargetKind::Example));
    let no_name = TomlValue::Table(vec![
        ("path".to_string(), TomlValue::Str("src/main.rs".to_string())),
        ("kind".to_string(), TomlValue::Str("Bin".to_string())),
    ]);
    assert_eq!(target_from_document(&no_name), None);
    assert_eq!(recipe_from_document(&TomlValue::Table(vec![])), None);
    let bad_lock = TomlValue::Table(vec![(
        "skeleton".to_string(),
        TomlValue::Table(vec![
            ("manifests".to_string(), TomlValue::Array(vec![])),
            ("lock_file".to_string(), TomlValue::Int(1)),
        ]),
    )]);
    assert_eq!(recipe_from_document(&bad_lock), None);
    let empty = TomlValue::Table(vec![(
        "skeleton".to_string(),
        TomlValue::Table(vec![("manifests".to_string(), TomlValue::Array(vec![]))]),
    )]);
    assert_eq!(
        recipe_from_document(&empty),
        Some(Recipe { skeleton: Skeleton { manifests: vec![], config_file: None, lock_file: None, rust_toolchain_file: None } })
    );
}
