//! The recipe as a self-describing document, and back. A text format
//! (JSON) is laid over the document outside the library.
use vstd::prelude::*;
use crate::recipe::Recipe;
use crate::skeleton::{Manifest, ManifestView, RustToolchainFile, Skeleton, manifest_view, manifests_view};
use crate::target::{Target, TargetKind, TargetView, target_view, targets_view};
use crate::text::{copy_string, owned, str_eq};
use crate::toml_value::{lookup, TomlValue};

verus! {

/// A skeleton as plain values.
pub type SkeletonView = (
    Seq<ManifestView>,
    Option<Seq<char>>,
    Option<Seq<char>>,
    Option<(RustToolchainFile, Seq<char>)>,
);

pub open spec fn opt_view(o: Option<String>) -> Option<Seq<char>> {
    match o {
        Some(s) => Some(s@),
        None => None,
    }
}

pub open spec fn skeleton_view(s: Skeleton) -> SkeletonView {
    (
        manifests_view(s.manifests@),
        opt_view(s.config_file),
        opt_view(s.lock_file),
        match s.rust_toolchain_file {
            Some((k, c)) => Some((k, c@)),
            None => None,
        },
    )
}

/// The characters of a string field of a table document.
pub open spec fn text_field(d: TomlValue, key: Seq<char>) -> Option<Seq<char>> {
    match d.field(key) {
        Some(TomlValue::Str(s)) => Some(s@),
        _ => None,
    }
}

/// A target kind: the name of a unit variant as a string, or a table
/// `{ "Lib": { "is_proc_macro": bool } }`.
pub open spec fn kind_of_doc(d: TomlValue) -> Option<TargetKind> {
    match d {
        TomlValue::Str(s) => {
            if s@ == "Bin"@ {
                Some(TargetKind::Bin)
            } else if s@ == "Test"@ {
                Some(TargetKind::Test)
            } else if s@ == "Bench"@ {
                Some(TargetKind::Bench)
            } else if s@ == "Example"@ {
                Some(TargetKind::Example)
            } else if s@ == "BuildScript"@ {
                Some(TargetKind::BuildScript)
            } else {
                None
            }
        },
        TomlValue::Table(_) => match d.field("Lib"@) {
            Some(inner) => match inner.field("is_proc_macro"@) {
                Some(TomlValue::Bool(b)) => Some(TargetKind::Lib { is_proc_macro: b }),
                _ => None,
            },
            None => None,
        },
        _ => None,
    }
}

/// A target: a table with `path`, `kind` and `name`.
pub open spec fn target_of_doc(d: TomlValue) -> Option<TargetView> {
    match (text_field(d, "path"@), d.field("kind"@), text_field(d, "name"@)) {
        (Some(p), Some(k), Some(n)) => match kind_of_doc(k) {
            Some(kind) => Some((p, kind, n)),
            None => None,
        },
        _ => None,
    }
}

/// A list of targets.
pub open spec fn targets_of_doc(d: Option<TomlValue>) -> Option<Seq<TargetView>> {
    match d {
        Some(TomlValue::Array(a)) => {
            if forall|i: int| 0 <= i < a@.len() ==> (#[trigger] target_of_doc(a@[i])) is Some {
                Some(a@.map_values(|x: TomlValue| target_of_doc(x)->Some_0))
            } else {
                None
            }
        },
        _ => None,
    }
}

/// A manifest: a table with `relative_path`, `contents` and `targets`.
pub open spec fn manifest_of_doc(d: TomlValue) -> Option<ManifestView> {
    match (text_field(d, "relative_path"@), text_field(d, "contents"@), targets_of_doc(d.field("targets"@))) {
        (Some(p), Some(c), Some(ts)) => Some((p, c, ts)),
        _ => None,
    }
}

/// A list of manifests.
pub open spec fn manifests_of_doc(d: Option<TomlValue>) -> Option<Seq<ManifestView>> {
    match d {
        Some(TomlValue::Array(a)) => {
            if forall|i: int| 0 <= i < a@.len() ==> (#[trigger] manifest_of_doc(a@[i])) is Some {
                Some(a@.map_values(|x: TomlValue| manifest_of_doc(x)->Some_0))
            } else {
                None
            }
        },
        _ => None,
    }
}

/// An optional string field: absent is `None`; present, it must be a string.
pub open spec fn optional_text_of_doc(d: TomlValue, key: Seq<char>) -> Option<Option<Seq<char>>> {
    match d.field(key) {
        None => Some(None),
        Some(TomlValue::Str(s)) => Some(Some(s@)),
        Some(_) => None,
    }
}

/// The toolchain kind named by a string.
pub open spec fn toolchain_kind_of_doc(d: TomlValue) -> Option<RustToolchainFile> {
    match d {
        TomlValue::Str(s) => {
            if s@ == "Bare"@ {
                Some(RustToolchainFile::Bare)
            } else if s@ == "Toml"@ {
                Some(RustToolchainFile::Toml)
            } else {
                None
            }
        },
        _ => None,
    }
}

/// The optional toolchain pin: absent, or a pair `[kind, text]`.
pub open spec fn toolchain_of_doc(d: TomlValue) -> Option<Option<(RustToolchainFile, Seq<char>)>> {
    match d.field("rust_toolchain_file"@) {
        None => Some(None),
        Some(TomlValue::Array(a)) => {
            if a@.len() == 2 && toolchain_kind_of_doc(a@[0]) is Some && a@[1] is Str {
                Some(Some((toolchain_kind_of_doc(a@[0])->Some_0, a@[1]->Str_0@)))
            } else {
                None
            }
        },
        Some(_) => None,
    }
}

/// A skeleton: a table with `manifests` and the three optional files.
pub open spec fn skeleton_of_doc(d: TomlValue) -> Option<SkeletonView> {
    match (
        manifests_of_doc(d.field("manifests"@)),
        optional_text_of_doc(d, "config_file"@),
        optional_text_of_doc(d, "lock_file"@),
        toolchain_of_doc(d),
    ) {
        (Some(ms), Some(c), Some(l), Some(t)) => Some((ms, c, l, t)),
        _ => None,
    }
}

/// A recipe: a table whose `skeleton` entry is a skeleton.
pub open spec fn recipe_of_doc(d: TomlValue) -> Option<SkeletonView> {
    match d.field("skeleton"@) {
        Some(s) => skeleton_of_doc(s),
        None => None,
    }
}

fn entry(key: &str, v: TomlValue) -> (r: (String, TomlValue))
    ensures
        r.0@ == key@,
        r.1 == v,
{
    (owned(key), v)
}

fn text(s: &String) -> (r: TomlValue)
    ensures
        r.is_str(s@),
{
    TomlValue::Str(copy_string(s))
}

/// The document of a target kind.
pub fn kind_document(k: TargetKind) -> (r: TomlValue)
    ensures
        kind_of_doc(r) == Some(k),
{
    proof {
        reveal_strlit("Bin");
        reveal_strlit("Test");
        reveal_strlit("Bench");
        reveal_strlit("Example");
        reveal_strlit("BuildScript");
    }
    match k {
        TargetKind::Lib { is_proc_macro } => {
            let mut inner: Vec<(String, TomlValue)> = Vec::new();
            inner.push(entry("is_proc_macro", TomlValue::Bool(is_proc_macro)));
            let mut outer: Vec<(String, TomlValue)> = Vec::new();
            outer.push(entry("Lib", TomlValue::Table(inner)));
            TomlValue::Table(outer)
        },
        TargetKind::Bin => TomlValue::Str(owned("Bin")),
        TargetKind::Test => {
            assert("Test"@ != "Bin"@) by {
                assert("Test"@[0] != "Bin"@[0]);
            }
            TomlValue::Str(owned("Test"))
        },
        TargetKind::Bench => {
            assert("Bench"@ != "Bin"@ && "Bench"@ != "Test"@) by {
                assert("Bench"@.len() != "Bin"@.len() && "Bench"@[0] != "Test"@[0]);
            }
            TomlValue::Str(owned("Bench"))
        },
        TargetKind::Example => {
            assert("Example"@ != "Bin"@ && "Example"@ != "Test"@ && "Example"@ != "Bench"@) by {
                assert("Example"@.len() != "Bin"@.len() && "Example"@.len() != "Test"@.len() && "Example"@.len() != "Bench"@.len());
            }
            TomlValue::Str(owned("Example"))
        },
        TargetKind::BuildScript => {
            assert("BuildScript"@ != "Bin"@ && "BuildScript"@ != "Test"@ && "BuildScript"@ != "Bench"@ && "BuildScript"@ != "Example"@) by {
                assert("BuildScript"@.len() != "Bin"@.len() && "BuildScript"@.len() != "Test"@.len() && "BuildScript"@.len() != "Bench"@.len() && "BuildScript"@.len() != "Example"@.len());
            }
            TomlValue::Str(owned("BuildScript"))
        },
    }
}

/// The document of a target.
pub fn target_document(t: &Target) -> (r: TomlValue)
    ensures
        target_of_doc(r) == Some(target_view(*t)),
{
    proof {
        reveal_strlit("path");
        reveal_strlit("kind");
        reveal_strlit("name");
        assert("path"@[0] != "kind"@[0] && "path"@[0] != "name"@[0] && "kind"@[0] != "name"@[0]);
    }
    let mut e: Vec<(String, TomlValue)> = Vec::new();
    e.push(entry("path", text(&t.path)));
    e.push(entry("kind", kind_document(t.kind)));
    e.push(entry("name", text(&t.name)));
    let r = TomlValue::Table(e);
    proof {
        let s = e@;
        reveal_with_fuel(lookup, 4);
        assert(s.drop_first()[0] == s[1]);
        assert(s.drop_first().drop_first()[0] == s[2]);
        assert(r.field("kind"@) == Some(s[1].1));
        assert(r.field("name"@) == Some(s[2].1));
    }
    r
}

/// The document of a list of targets.
pub fn targets_document(ts: &Vec<Target>) -> (r: TomlValue)
    ensures
        targets_of_doc(Some(r)) == Some(targets_view(ts@)),
{
    let mut a: Vec<TomlValue> = Vec::new();
    let mut i: usize = 0;
    while i < ts.len()
        invariant
            0 <= i <= ts@.len(),
            a@.len() == i,
            forall|k: int| 0 <= k < i ==> target_of_doc(#[trigger] a@[k]) == Some(target_view(ts@[k])),
        decreases ts@.len() - i,
    {
        a.push(target_document(&ts[i]));
        i = i + 1;
    }
    assert(a@.map_values(|x: TomlValue| target_of_doc(x)->Some_0) =~= targets_view(ts@));
    TomlValue::Array(a)
}

/// The document of a manifest.
pub fn manifest_document(m: &Manifest) -> (r: TomlValue)
    ensures
        manifest_of_doc(r) == Some(manifest_view(*m)),
{
    proof {
        reveal_strlit("relative_path");
        reveal_strlit("contents");
        reveal_strlit("targets");
        assert("relative_path"@[0] != "contents"@[0] && "relative_path"@[0] != "targets"@[0]
            && "contents"@[0] != "targets"@[0]);
    }
    let mut e: Vec<(String, TomlValue)> = Vec::new();
    e.push(entry("relative_path", text(&m.relative_path)));
    e.push(entry("contents", text(&m.contents)));
    e.push(entry("targets", targets_document(&m.targets)));
    let r = TomlValue::Table(e);
    proof {
        let s = e@;
        reveal_with_fuel(lookup, 4);
        assert(s.drop_first()[0] == s[1]);
        assert(s.drop_first().drop_first()[0] == s[2]);
        assert(r.field("contents"@) == Some(s[1].1));
        assert(r.field("targets"@) == Some(s[2].1));
    }
    r
}

/// The document of a list of manifests.
pub fn manifests_document(ms: &Vec<Manifest>) -> (r: TomlValue)
    ensures
        manifests_of_doc(Some(r)) == Some(manifests_view(ms@)),
{
    let mut a: Vec<TomlValue> = Vec::new();
    let mut i: usize = 0;
    while i < ms.len()
        invariant
            0 <= i <= ms@.len(),
            a@.len() == i,
            forall|k: int| 0 <= k < i ==> manifest_of_doc(#[trigger] a@[k]) == Some(manifest_view(ms@[k])),
        decreases ms@.len() - i,
    {
        a.push(manifest_document(&ms[i]));
        i = i + 1;
    }
    assert(a@.map_values(|x: TomlValue| manifest_of_doc(x)->Some_0) =~= manifests_view(ms@));
    TomlValue::Array(a)
}

proof fn lemma_skeleton_keys_distinct()
    ensures
        "manifests"@ != "config_file"@,
        "manifests"@ != "lock_file"@,
        "manifests"@ != "rust_toolchain_file"@,
        "config_file"@ != "lock_file"@,
        "config_file"@ != "rust_toolchain_file"@,
        "lock_file"@ != "rust_toolchain_file"@,
{
    reveal_strlit("manifests");
    reveal_strlit("config_file");
    reveal_strlit("lock_file");
    reveal_strlit("rust_toolchain_file");
    assert("manifests"@[0] != "config_file"@[0] && "manifests"@[0] != "lock_file"@[0]
        && "manifests"@[0] != "rust_toolchain_file"@[0] && "config_file"@[0] != "lock_file"@[0]
        && "config_file"@[0] != "rust_toolchain_file"@[0] && "lock_file"@[0]
        != "rust_toolchain_file"@[0]);
}

/// The value under `key` in `entries`, given that no earlier entry has that key.
proof fn lemma_lookup_at(entries: Seq<(String, TomlValue)>, key: Seq<char>, i: int)
    requires
        0 <= i < entries.len(),
        entries[i].0@ == key,
        forall|j: int| 0 <= j < i ==> entries[j].0@ != key,
    ensures
        lookup(entries, key) == Some(entries[i].1),
    decreases i,
{
    if i > 0 {
        lemma_lookup_at(entries.drop_first(), key, i - 1);
    }
}

/// No entry of `entries` has the key `key`.
proof fn lemma_lookup_absent(entries: Seq<(String, TomlValue)>, key: Seq<char>)
    requires
        forall|j: int| 0 <= j < entries.len() ==> entries[j].0@ != key,
    ensures
        lookup(entries, key) is None,
    decreases entries.len(),
{
    if entries.len() > 0 {
        lemma_lookup_absent(entries.drop_first(), key);
    }
}

fn toolchain_document(kind: RustToolchainFile, contents: &String) -> (r: TomlValue)
    ensures
        r matches TomlValue::Array(a) && a@.len() == 2 && toolchain_kind_of_doc(a@[0]) == Some(kind)
            && a@[1].is_str(contents@),
{
    proof {
        reveal_strlit("Bare");
        reveal_strlit("Toml");
        assert("Toml"@[0] != "Bare"@[0]);
    }
    let word = match kind {
        RustToolchainFile::Bare => "Bare",
        RustToolchainFile::Toml => "Toml",
    };
    let mut a: Vec<TomlValue> = Vec::new();
    a.push(TomlValue::Str(owned(word)));
    a.push(text(contents));
    TomlValue::Array(a)
}

/// The document of a skeleton. An absent optional file has no entry.
pub fn skeleton_document(s: &Skeleton) -> (r: TomlValue)
    ensures
        skeleton_of_doc(r) == Some(skeleton_view(*s)),
{
    proof { lemma_skeleton_keys_distinct(); }
    let mut e: Vec<(String, TomlValue)> = Vec::new();
    e.push(entry("manifests", manifests_document(&s.manifests)));
    let ghost m_doc = e@[0].1;
    let ghost ic = e@.len() as int;
    if let Some(c) = &s.config_file {
        e.push(entry("config_file", text(c)));
        assert(e@[ic].0@ == "config_file"@ && e@[ic].1.is_str(c@));
    }
    let ghost il = e@.len() as int;
    if let Some(l) = &s.lock_file {
        e.push(entry("lock_file", text(l)));
        assert(e@[il].0@ == "lock_file"@ && e@[il].1.is_str(l@));
    }
    let ghost it = e@.len() as int;
    if let Some((k, c)) = &s.rust_toolchain_file {
        e.push(entry("rust_toolchain_file", toolchain_document(*k, c)));
    }
    let r = TomlValue::Table(e);
    proof {
        let v = e@;
        assert(v[0].0@ == "manifests"@);
        assert(ic == 1);
        lemma_lookup_at(v, "manifests"@, 0);
        if s.config_file is Some {
            {
                assert(il == ic + 1);
                lemma_lookup_at(v, "config_file"@, ic);
            }
        } else {
            {
                assert(il == ic);
                lemma_lookup_absent(v, "config_file"@);
            }
        }
        if s.lock_file is Some {
            {
                assert(it == il + 1);
                lemma_lookup_at(v, "lock_file"@, il);
            }
        } else {
            {
                assert(it == il);
                lemma_lookup_absent(v, "lock_file"@);
            }
        }
        if s.rust_toolchain_file is Some {
            {
                assert(v.len() == it + 1);
                lemma_lookup_at(v, "rust_toolchain_file"@, it);
            }
        } else {
            {
                assert(v.len() == it);
                lemma_lookup_absent(v, "rust_toolchain_file"@);
            }
        }
    }
    r
}

/// The document of a recipe.
pub fn recipe_document(r: &Recipe) -> (d: TomlValue)
    ensures
        recipe_of_doc(d) == Some(skeleton_view(r.skeleton)),
{
    let mut e: Vec<(String, TomlValue)> = Vec::new();
    e.push(entry("skeleton", skeleton_document(&r.skeleton)));
    let d = TomlValue::Table(e);
    assert(e@[0].0@ == "skeleton"@);
    d
}

pub open spec fn deref_opt(d: Option<&TomlValue>) -> Option<TomlValue> {
    match d {
        Some(x) => Some(*x),
        None => None,
    }
}

fn text_field_exec(d: &TomlValue, key: &str) -> (r: Option<String>)
    ensures
        opt_view(r) == text_field(*d, key@),
{
    match d.get(key) {
        Some(TomlValue::Str(s)) => Some(copy_string(s)),
        _ => None,
    }
}

/// The target kind a document describes, if it describes one.
pub fn kind_from_document(d: &TomlValue) -> (r: Option<TargetKind>)
    ensures
        r == kind_of_doc(*d),
{
    match d {
        TomlValue::Str(s) => {
            if str_eq(s.as_str(), "Bin") {
                Some(TargetKind::Bin)
            } else if str_eq(s.as_str(), "Test") {
                Some(TargetKind::Test)
            } else if str_eq(s.as_str(), "Bench") {
                Some(TargetKind::Bench)
            } else if str_eq(s.as_str(), "Example") {
                Some(TargetKind::Example)
            } else if str_eq(s.as_str(), "BuildScript") {
                Some(TargetKind::BuildScript)
            } else {
                None
            }
        },
        TomlValue::Table(_) => match d.get("Lib") {
            Some(inner) => match inner.get("is_proc_macro") {
                Some(TomlValue::Bool(b)) => Some(TargetKind::Lib { is_proc_macro: *b }),
                _ => None,
            },
            None => None,
        },
        _ => None,
    }
}

/// The target a document describes, if it describes one.
pub fn target_from_document(d: &TomlValue) -> (r: Option<Target>)
    ensures
        match r {
            Some(t) => target_of_doc(*d) == Some(target_view(t)),
            None => target_of_doc(*d) is None,
        },
{
    let path = text_field_exec(d, "path");
    let name = text_field_exec(d, "name");
    let kind = match d.get("kind") {
        Some(k) => kind_from_document(k),
        None => None,
    };
    match (path, kind, name) {
        (Some(path), Some(kind), Some(name)) => Some(Target { path, kind, name }),
        _ => None,
    }
}

fn targets_from_document(d: Option<&TomlValue>) -> (r: Option<Vec<Target>>)
    ensures
        match r {
            Some(v) => targets_of_doc(deref_opt(d)) == Some(targets_view(v@)),
            None => targets_of_doc(deref_opt(d)) is None,
        },
{
    match d {
        Some(TomlValue::Array(a)) => {
            let mut out: Vec<Target> = Vec::new();
            let mut i: usize = 0;
            let ghost dv = deref_opt(d);
            assert(dv matches Some(TomlValue::Array(x)) && x@ == a@);
            while i < a.len()
                invariant
                    0 <= i <= a@.len(),
                    dv == deref_opt(d),
                    dv matches Some(TomlValue::Array(x)) && x@ == a@,
                    out@.len() == i,
                    forall|k: int| 0 <= k < i ==> target_of_doc(#[trigger] a@[k]) == Some(target_view(out@[k])),
                decreases a@.len() - i,
            {
                match target_from_document(&a[i]) {
                    Some(t) => out.push(t),
                    None => {
                        assert(target_of_doc(a@[i as int]) is None);
                        return None;
                    },
                }
                i = i + 1;
            }
            assert(a@.map_values(|x: TomlValue| target_of_doc(x)->Some_0) =~= targets_view(out@));
            Some(out)
        },
        _ => None,
    }
}

/// The manifest a document describes, if it describes one.
pub fn manifest_from_document(d: &TomlValue) -> (r: Option<Manifest>)
    ensures
        match r {
            Some(m) => manifest_of_doc(*d) == Some(manifest_view(m)),
            None => manifest_of_doc(*d) is None,
        },
{
    let relative_path = text_field_exec(d, "relative_path");
    let contents = text_field_exec(d, "contents");
    let targets = targets_from_document(d.get("targets"));
    match (relative_path, contents, targets) {
        (Some(relative_path), Some(contents), Some(targets)) => Some(Manifest { relative_path, contents, targets }),
        _ => None,
    }
}

fn manifests_from_document(d: Option<&TomlValue>) -> (r: Option<Vec<Manifest>>)
    ensures
        match r {
            Some(v) => manifests_of_doc(deref_opt(d)) == Some(manifests_view(v@)),
            None => manifests_of_doc(deref_opt(d)) is None,
        },
{
    match d {
        Some(TomlValue::Array(a)) => {
            let mut out: Vec<Manifest> = Vec::new();
            let mut i: usize = 0;
            let ghost dv = deref_opt(d);
            assert(dv matches Some(TomlValue::Array(x)) && x@ == a@);
            while i < a.len()
                invariant
                    0 <= i <= a@.len(),
                    dv == deref_opt(d),
                    dv matches Some(TomlValue::Array(x)) && x@ == a@,
                    out@.len() == i,
                    forall|k: int| 0 <= k < i ==> manifest_of_doc(#[trigger] a@[k]) == Some(manifest_view(out@[k])),
                decreases a@.len() - i,
            {
                match manifest_from_document(&a[i]) {
                    Some(m) => out.push(m),
                    None => {
                        assert(manifest_of_doc(a@[i as int]) is None);
                        return None;
                    },
                }
                i = i + 1;
            }
            assert(a@.map_values(|x: TomlValue| manifest_of_doc(x)->Some_0) =~= manifests_view(out@));
            Some(out)
        },
        _ => None,
    }
}

fn optional_text(d: &TomlValue, key: &str) -> (r: Option<Option<String>>)
    ensures
        match r {
            Some(o) => optional_text_of_doc(*d, key@) == Some(opt_view(o)),
            None => optional_text_of_doc(*d, key@) is None,
        },
{
    match d.get(key) {
        None => Some(None),
        Some(TomlValue::Str(s)) => Some(Some(copy_string(s))),
        Some(_) => None,
    }
}

fn toolchain_from_document(d: &TomlValue) -> (r: Option<Option<(RustToolchainFile, String)>>)
    ensures
        match r {
            Some(Some((k, c))) => toolchain_of_doc(*d) == Some(Some((k, c@))),
            Some(None) => toolchain_of_doc(*d) == Some(None::<(RustToolchainFile, Seq<char>)>),
            None => toolchain_of_doc(*d) is None,
        },
{
    match d.get("rust_toolchain_file") {
        None => Some(None),
        Some(TomlValue::Array(a)) => {
            if a.len() != 2 {
                return None;
            }
            let kind = match &a[0] {
                TomlValue::Str(w) => {
                    if str_eq(w.as_str(), "Bare") {
                        RustToolchainFile::Bare
                    } else if str_eq(w.as_str(), "Toml") {
                        RustToolchainFile::Toml
                    } else {
                        return None;
                    }
                },
                _ => {
                    return None;
                },
            };
            match &a[1] {
                TomlValue::Str(c) => Some(Some((kind, copy_string(c)))),
                _ => None,
            }
        },
        Some(_) => None,
    }
}

/// The skeleton a document describes, if it describes one.
pub fn skeleton_from_document(d: &TomlValue) -> (r: Option<Skeleton>)
    ensures
        match r {
            Some(s) => skeleton_of_doc(*d) == Some(skeleton_view(s)),
            None => skeleton_of_doc(*d) is None,
        },
{
    let manifests = manifests_from_document(d.get("manifests"));
    let config_file = optional_text(d, "config_file");
    let lock_file = optional_text(d, "lock_file");
    let rust_toolchain_file = toolchain_from_document(d);
    match (manifests, config_file, lock_file, rust_toolchain_file) {
        (Some(manifests), Some(config_file), Some(lock_file), Some(rust_toolchain_file)) => {
            Some(Skeleton { manifests, config_file, lock_file, rust_toolchain_file })
        },
        _ => None,
    }
}

/// The recipe a document describes, or `None` when it describes none.
pub fn recipe_from_document(d: &TomlValue) -> (r: Option<Recipe>)
    ensures
        match r {
            Some(rec) => recipe_of_doc(*d) == Some(skeleton_view(rec.skeleton)),
            None => recipe_of_doc(*d) is None,
        },
{
    match d.get("skeleton") {
        Some(s) => match skeleton_from_document(s) {
            Some(skeleton) => Some(Recipe { skeleton }),
            None => None,
        },
        None => None,
    }
}

/// Reading back the document of a recipe gives the recipe again: the
/// same manifests, targets, lockfile, configuration and toolchain pin.
pub proof fn lemma_recipe_round_trip(r: Recipe, d: TomlValue, back: Recipe)
    requires
        recipe_of_doc(d) == Some(skeleton_view(r.skeleton)),
        recipe_of_doc(d) == Some(skeleton_view(back.skeleton)),
    ensures
        skeleton_view(back.skeleton) == skeleton_view(r.skeleton),
{
}

} // verus!
