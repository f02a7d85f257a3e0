//! Replacing the versions of the workspace's own packages by a fixed one, so
//! that a change of a local version alone leaves the skeleton unchanged.
use vstd::prelude::*;
use crate::target::Target;
use crate::text::{owned, str_eq};
use crate::toml_value::TomlValue;

verus! {

/// The version every local package is given.
pub const DUMMY_VERSION: &'static str = "0.0.1";

/// A manifest read from the workspace: its path from the workspace root,
/// its parsed text and its targets.
#[derive(Debug, PartialEq, Eq)]
pub struct ParsedManifest {
    pub relative_path: String,
    pub contents: TomlValue,
    pub targets: Vec<Target>,
}

/// Where in a manifest or lockfile a table sits, as far as masking goes.
#[derive(Debug, Clone, Copy, PartialEq, Eq, Structural)]
pub enum Section {
    /// The whole manifest.
    Manifest,
    /// `[package]` of a manifest: its version is masked when it is a string.
    Package,
    /// A table whose `version` entry is masked whatever it holds.
    Versioned,
    /// A dependency table (`[dependencies]` and its two siblings).
    Dependencies,
    /// A table that may hold dependency tables (a `[target.'cfg']` entry).
    DependencyTables,
    /// `[target]`: one `DependencyTables` per platform.
    Platforms,
    /// `[workspace]`.
    Workspace,
    /// The whole lockfile.
    Lockfile,
    /// One `[[package]]` entry of the lockfile.
    LockPackage,
}

pub open spec fn rank(s: Section) -> nat {
    match s {
        Section::Package => 0,
        Section::Versioned => 0,
        Section::Dependencies => 1,
        Section::LockPackage => 1,
        Section::DependencyTables => 2,
        Section::Workspace => 2,
        Section::Lockfile => 2,
        Section::Platforms => 3,
        Section::Manifest => 4,
    }
}

/// Whether `v` is the dummy version.
pub open spec fn is_dummy(v: TomlValue) -> bool {
    v.is_str(DUMMY_VERSION@)
}

/// Whether `key` names one of the three dependency tables.
pub open spec fn is_dependency_key(key: Seq<char>) -> bool {
    key == "dependencies"@ || key == "dev-dependencies"@ || key == "build-dependencies"@
}

/// Whether the dependency declared under `key` as `dep` is a local package:
/// the package it names (`package = ...` when renamed, else the key) is
/// one of `names`.
pub open spec fn resolves_local(names: Seq<Seq<char>>, key: Seq<char>, dep: TomlValue) -> bool {
    match dep.field("package"@) {
        Some(p) => match p {
            TomlValue::Str(s) => names.contains(s@),
            _ => false,
        },
        None => names.contains(key),
    }
}

/// Whether the lockfile entry `p` is a local package: named in `names`
/// and with no `source`.
pub open spec fn lock_local(names: Seq<Seq<char>>, p: TomlValue) -> bool {
    &&& match p.field("name"@) {
        Some(TomlValue::Str(s)) => names.contains(s@),
        _ => false,
    }
    &&& p.field("source"@) is None
}

/// How the value `old` under `key` of a table in section `s` is masked
/// into `new`.
pub open spec fn entry_masked(
    names: Seq<Seq<char>>,
    s: Section,
    key: Seq<char>,
    old: TomlValue,
    new: TomlValue,
) -> bool
    decreases rank(s), 0nat,
{
    match s {
        Section::Manifest => {
            if key == "package"@ {
                table_masked(names, Section::Package, old, new)
            } else if is_dependency_key(key) {
                table_masked(names, Section::Dependencies, old, new)
            } else if key == "target"@ {
                table_masked(names, Section::Platforms, old, new)
            } else if key == "workspace"@ {
                table_masked(names, Section::Workspace, old, new)
            } else {
                new == old
            }
        },
        Section::Package => {
            if key == "version"@ && old is Str {
                is_dummy(new)
            } else {
                new == old
            }
        },
        Section::Versioned => {
            if key == "version"@ {
                is_dummy(new)
            } else {
                new == old
            }
        },
        Section::Dependencies => {
            if resolves_local(names, key, old) {
                table_masked(names, Section::Versioned, old, new)
            } else {
                new == old
            }
        },
        Section::DependencyTables => {
            if is_dependency_key(key) {
                table_masked(names, Section::Dependencies, old, new)
            } else {
                new == old
            }
        },
        Section::Platforms => table_masked(names, Section::DependencyTables, old, new),
        Section::Workspace => {
            if key == "package"@ {
                table_masked(names, Section::Versioned, old, new)
            } else if is_dependency_key(key) {
                table_masked(names, Section::Dependencies, old, new)
            } else {
                new == old
            }
        },
        Section::Lockfile => {
            if key == "package"@ {
                array_masked(names, Section::LockPackage, old, new)
            } else {
                new == old
            }
        },
        Section::LockPackage => {
            if lock_local(names, old) {
                table_masked(names, Section::Versioned, old, new)
            } else {
                new == old
            }
        },
    }
}

/// `new` is the table `old` with each entry masked as section `s` says,
/// keys and order kept; a value that is not a table is kept as it is.
pub open spec fn table_masked(names: Seq<Seq<char>>, s: Section, old: TomlValue, new: TomlValue) -> bool
    decreases rank(s), 1nat,
{
    match old {
        TomlValue::Table(a) => match new {
            TomlValue::Table(b) => {
                &&& b@.len() == a@.len()
                &&& forall|i: int|
                    0 <= i < a@.len() ==> #[trigger] b@[i].0 == a@[i].0 && entry_masked(
                        names,
                        s,
                        a@[i].0@,
                        a@[i].1,
                        b@[i].1,
                    )
            },
            _ => false,
        },
        _ => new == old,
    }
}

/// `new` is the array `old` with each element masked as section `s` says;
/// a value that is not an array is kept as it is.
pub open spec fn array_masked(names: Seq<Seq<char>>, s: Section, old: TomlValue, new: TomlValue) -> bool
    decreases rank(s), 1nat,
{
    match old {
        TomlValue::Array(a) => match new {
            TomlValue::Array(b) => {
                &&& b@.len() == a@.len()
                &&& forall|i: int|
                    0 <= i < a@.len() ==> entry_masked(names, s, Seq::empty(), a@[i], #[trigger] b@[i])
            },
            _ => false,
        },
        _ => new == old,
    }
}

/// The characters of each name.
pub open spec fn names_view(names: Seq<String>) -> Seq<Seq<char>> {
    names.map_values(|n: String| n@)
}

fn contains_name(names: &Vec<String>, s: &str) -> (r: bool)
    ensures
        r == names_view(names@).contains(s@),
{
    let mut i: usize = 0;
    while i < names.len()
        invariant
            0 <= i <= names@.len(),
            forall|j: int| 0 <= j < i ==> names@[j]@ != s@,
        decreases names@.len() - i,
    {
        if str_eq(names[i].as_str(), s) {
            assert(names_view(names@)[i as int] == s@);
            return true;
        }
        i = i + 1;
    }
    proof {
        if names_view(names@).contains(s@) {
            let j = choose|j: int| 0 <= j < names_view(names@).len() && names_view(names@)[j] == s@;
            assert(names@[j]@ == s@);
        }
    }
    false
}

fn resolves_local_exec(names: &Vec<String>, key: &str, dep: &TomlValue) -> (r: bool)
    ensures
        r == resolves_local(names_view(names@), key@, *dep),
{
    match dep.get("package") {
        Some(TomlValue::Str(p)) => contains_name(names, p.as_str()),
        Some(_) => false,
        None => contains_name(names, key),
    }
}

fn lock_local_exec(names: &Vec<String>, p: &TomlValue) -> (r: bool)
    ensures
        r == lock_local(names_view(names@), *p),
{
    let named = match p.get("name") {
        Some(TomlValue::Str(n)) => contains_name(names, n.as_str()),
        _ => false,
    };
    named && p.get("source").is_none()
}

fn is_dependency_key_exec(key: &str) -> (r: bool)
    ensures
        r == is_dependency_key(key@),
{
    str_eq(key, "dependencies") || str_eq(key, "dev-dependencies") || str_eq(key, "build-dependencies")
}

/// The dummy version as a TOML string.
fn dummy() -> (r: TomlValue)
    ensures
        is_dummy(r),
{
    TomlValue::Str(owned(DUMMY_VERSION))
}

fn mask_entry(names: &Vec<String>, s: Section, key: &str, v: TomlValue) -> (r: TomlValue)
    ensures
        entry_masked(names_view(names@), s, key@, v, r),
    decreases rank(s), 0nat,
{
    match s {
        Section::Manifest => {
            if str_eq(key, "package") {
                mask_table(names, Section::Package, v)
            } else if is_dependency_key_exec(key) {
                mask_table(names, Section::Dependencies, v)
            } else if str_eq(key, "target") {
                mask_table(names, Section::Platforms, v)
            } else if str_eq(key, "workspace") {
                mask_table(names, Section::Workspace, v)
            } else {
                v
            }
        },
        Section::Package => {
            if str_eq(key, "version") && matches!(v, TomlValue::Str(_)) {
                dummy()
            } else {
                v
            }
        },
        Section::Versioned => {
            if str_eq(key, "version") {
                dummy()
            } else {
                v
            }
        },
        Section::Dependencies => {
            if resolves_local_exec(names, key, &v) {
                mask_table(names, Section::Versioned, v)
            } else {
                v
            }
        },
        Section::DependencyTables => {
            if is_dependency_key_exec(key) {
                mask_table(names, Section::Dependencies, v)
            } else {
                v
            }
        },
        Section::Platforms => mask_table(names, Section::DependencyTables, v),
        Section::Workspace => {
            if str_eq(key, "package") {
                mask_table(names, Section::Versioned, v)
            } else if is_dependency_key_exec(key) {
                mask_table(names, Section::Dependencies, v)
            } else {
                v
            }
        },
        Section::Lockfile => {
            if str_eq(key, "package") {
                mask_array(names, Section::LockPackage, v)
            } else {
                v
            }
        },
        Section::LockPackage => {
            if lock_local_exec(names, &v) {
                mask_table(names, Section::Versioned, v)
            } else {
                v
            }
        },
    }
}

fn mask_table(names: &Vec<String>, s: Section, v: TomlValue) -> (r: TomlValue)
    ensures
        table_masked(names_view(names@), s, v, r),
    decreases rank(s), 1nat,
{
    match v {
        TomlValue::Table(a) => {
            let ghost a0_vec = a;
            let ghost a0 = a@;
            let mut a = a;
            let mut b: Vec<(String, TomlValue)> = Vec::new();
            while a.len() > 0
                invariant
                    b@.len() + a@.len() == a0.len(),
                    a@ == a0.subrange(b@.len() as int, a0.len() as int),
                    forall|i: int|
                        0 <= i < b@.len() ==> #[trigger] b@[i].0 == a0[i].0 && entry_masked(
                            names_view(names@),
                            s,
                            a0[i].0@,
                            a0[i].1,
                            b@[i].1,
                        ),
                decreases a@.len(),
            {
                let ghost n = b@.len();
                let (k, x) = a.remove(0);
                assert(a0[n as int] == (k, x));
                let y = mask_entry(names, s, k.as_str(), x);
                let ghost b_before = b@;
                b.push((k, y));
                assert(b@[n as int] == (k, y));
                assert(forall|i: int| 0 <= i < n ==> b@[i] == b_before[i]);
                assert(a@ =~= a0.subrange(b@.len() as int, a0.len() as int));
            }
            let r = TomlValue::Table(b);
            assert(b@.len() == a0.len());
            assert(v == TomlValue::Table(a0_vec));
            r
        },
        other => other,
    }
}

fn mask_array(names: &Vec<String>, s: Section, v: TomlValue) -> (r: TomlValue)
    ensures
        array_masked(names_view(names@), s, v, r),
    decreases rank(s), 1nat,
{
    match v {
        TomlValue::Array(a) => {
            let ghost a0 = a@;
            let mut a = a;
            let mut b: Vec<TomlValue> = Vec::new();
            while a.len() > 0
                invariant
                    b@.len() + a@.len() == a0.len(),
                    a@ == a0.subrange(b@.len() as int, a0.len() as int),
                    forall|i: int|
                        0 <= i < b@.len() ==> entry_masked(
                            names_view(names@),
                            s,
                            Seq::empty(),
                            a0[i],
                            #[trigger] b@[i],
                        ),
                decreases a@.len(),
            {
                let ghost n = b@.len();
                let x = a.remove(0);
                assert(a0[n as int] == x);
                proof {
                    reveal_strlit("");
                    assert(""@ =~= Seq::<char>::empty());
                }
                let y = mask_entry(names, s, "", x);
                b.push(y);
                assert(a@ =~= a0.subrange(b@.len() as int, a0.len() as int));
            }
            TomlValue::Array(b)
        },
        other => other,
    }
}

/// The name declared by the `[package]` section of `contents`, if any.
pub open spec fn package_name(contents: TomlValue) -> Option<Seq<char>> {
    match contents.field("package"@) {
        Some(p) => match p.field("name"@) {
            Some(TomlValue::Str(n)) => Some(n@),
            _ => None,
        },
        None => None,
    }
}

/// The names of the packages that the manifests declare, in order.
pub open spec fn local_names(ms: Seq<ParsedManifest>) -> Seq<Seq<char>>
    decreases ms.len(),
{
    if ms.len() == 0 {
        Seq::empty()
    } else {
        local_names(ms.drop_last()) + match package_name(ms.last().contents) {
            Some(n) => seq![n],
            None => Seq::empty(),
        }
    }
}

/// The names of the packages declared by `manifests`.
pub fn parse_local_crate_names(manifests: &Vec<ParsedManifest>) -> (r: Vec<String>)
    ensures
        names_view(r@) == local_names(manifests@),
{
    let mut r: Vec<String> = Vec::new();
    let mut i: usize = 0;
    while i < manifests.len()
        invariant
            0 <= i <= manifests@.len(),
            names_view(r@) == local_names(manifests@.subrange(0, i as int)),
        decreases manifests@.len() - i,
    {
        assert(manifests@.subrange(0, i + 1).drop_last() =~= manifests@.subrange(0, i as int));
        let ghost before = r@;
        if let Some(p) = manifests[i].contents.get("package") {
            if let Some(TomlValue::Str(n)) = p.get("name") {
                r.push(owned(n.as_str()));
            }
        }
        assert(names_view(r@) =~= local_names(manifests@.subrange(0, i + 1)));
        i = i + 1;
    }
    assert(manifests@.subrange(0, i as int) =~= manifests@);
    r
}

/// `new` is the manifest `old` with the versions of local packages masked:
/// path and targets kept, contents masked.
pub open spec fn manifest_masked(names: Seq<Seq<char>>, old: ParsedManifest, new: ParsedManifest) -> bool {
    &&& new.relative_path == old.relative_path
    &&& new.targets == old.targets
    &&& table_masked(names, Section::Manifest, old.contents, new.contents)
}

/// Masks, in each manifest, its own version and the versions of the
/// dependencies on the packages `names`, in every dependency table,
/// per-platform and workspace-wide ones included, and the workspace's
/// package version.
pub fn mask_local_versions_in_manifests(manifests: &mut Vec<ParsedManifest>, names: &Vec<String>)
    ensures
        final(manifests)@.len() == old(manifests)@.len(),
        forall|i: int|
            0 <= i < old(manifests)@.len() ==> manifest_masked(
                names_view(names@),
                #[trigger] old(manifests)@[i],
                final(manifests)@[i],
            ),
{
    let ghost m0 = manifests@;
    let mut src: Vec<ParsedManifest> = Vec::new();
    std::mem::swap(manifests, &mut src);
    assert(src@ == m0);
    while src.len() > 0
        invariant
            manifests@.len() + src@.len() == m0.len(),
            src@ == m0.subrange(manifests@.len() as int, m0.len() as int),
            forall|i: int|
                0 <= i < manifests@.len() ==> manifest_masked(
                    names_view(names@),
                    #[trigger] m0[i],
                    manifests@[i],
                ),
        decreases src@.len(),
    {
        let ghost n = manifests@.len();
        let m = src.remove(0);
        assert(m0[n as int] == m);
        let ParsedManifest { relative_path, contents, targets } = m;
        let contents = mask_table(names, Section::Manifest, contents);
        manifests.push(ParsedManifest { relative_path, contents, targets });
        assert(src@ =~= m0.subrange(manifests@.len() as int, m0.len() as int));
    }
}

/// Masks the version of each lockfile entry that is one of the packages
/// `names` and has no `source`; entries that come from a registry or
/// elsewhere keep theirs.
pub fn mask_local_versions_in_lockfile(lock_file: TomlValue, names: &Vec<String>) -> (r: TomlValue)
    ensures
        table_masked(names_view(names@), Section::Lockfile, lock_file, r),
{
    mask_table(names, Section::Lockfile, lock_file)
}

/// Masks the versions of the workspace's own packages in every manifest
/// and in the lockfile. The local packages are those that the manifests
/// declare.
pub fn mask_local_crate_versions(manifests: &mut Vec<ParsedManifest>, lock_file: &mut Option<TomlValue>)
    ensures
        final(manifests)@.len() == old(manifests)@.len(),
        forall|i: int|
            0 <= i < old(manifests)@.len() ==> manifest_masked(
                local_names(old(manifests)@),
                #[trigger] old(manifests)@[i],
                final(manifests)@[i],
            ),
        match *old(lock_file) {
            Some(l) => match *final(lock_file) {
                Some(n) => table_masked(local_names(old(manifests)@), Section::Lockfile, l, n),
                None => false,
            },
            None => *final(lock_file) is None,
        },
{
    let names = parse_local_crate_names(manifests);
    mask_local_versions_in_manifests(manifests, &names);
    let lock = lock_file.take();
    if let Some(l) = lock {
        *lock_file = Some(mask_local_versions_in_lockfile(l, &names));
    }
}

/// The entries of a table value (empty for any other value).
pub open spec fn entries(v: TomlValue) -> Seq<(String, TomlValue)> {
    match v {
        TomlValue::Table(t) => t@,
        _ => Seq::empty(),
    }
}

/// The elements of an array value (empty for any other value).
pub open spec fn elements(v: TomlValue) -> Seq<TomlValue> {
    match v {
        TomlValue::Array(a) => a@,
        _ => Seq::empty(),
    }
}

/// Masking a manifest gives its package a string version of the dummy
/// value, and changes nothing else in `[package]`.
pub proof fn lemma_own_version_masked(names: Seq<Seq<char>>, old: TomlValue, new: TomlValue, i: int, j: int)
    requires
        table_masked(names, Section::Manifest, old, new),
        0 <= i < entries(old).len(),
        entries(old)[i].0@ == "package"@,
        0 <= j < entries(entries(old)[i].1).len(),
    ensures
        entries(new)[i].0 == entries(old)[i].0,
        entries(entries(new)[i].1)[j].0 == entries(entries(old)[i].1)[j].0,
        if entries(entries(old)[i].1)[j].0@ == "version"@ && entries(entries(old)[i].1)[j].1 is Str {
            is_dummy(entries(entries(new)[i].1)[j].1)
        } else {
            entries(entries(new)[i].1)[j].1 == entries(entries(old)[i].1)[j].1
        },
{
    let a = entries(old);
    assert(old is Table);
    assert(new is Table);
    assert(entries(new)[i].0 == a[i].0);
    assert(entry_masked(names, Section::Manifest, a[i].0@, a[i].1, entries(new)[i].1));
    let p = a[i].1;
    assert(table_masked(names, Section::Package, p, entries(new)[i].1));
    assert(p is Table);
    assert(entries(entries(new)[i].1)[j].0 == entries(p)[j].0);
    assert(entry_masked(names, Section::Package, entries(p)[j].0@, entries(p)[j].1,
        entries(entries(new)[i].1)[j].1));
}

/// In a dependency table of a manifest, a dependency that resolves to a
/// local package (through `package = ...` when renamed) gets the dummy
/// version, and one that does not, a registry package above all, is kept
/// exactly as it was.
pub proof fn lemma_dependency_masking_scope(
    names: Seq<Seq<char>>,
    old: TomlValue,
    new: TomlValue,
    i: int,
    j: int,
)
    requires
        table_masked(names, Section::Manifest, old, new),
        0 <= i < entries(old).len(),
        is_dependency_key(entries(old)[i].0@),
        0 <= j < entries(entries(old)[i].1).len(),
    ensures
        ({
            let dep = entries(entries(old)[i].1)[j];
            let dep_new = entries(entries(new)[i].1)[j];
            &&& dep_new.0 == dep.0
            &&& !resolves_local(names, dep.0@, dep.1) ==> dep_new.1 == dep.1
            &&& resolves_local(names, dep.0@, dep.1) ==> forall|k: int|
                0 <= k < entries(dep.1).len() ==> (if entries(dep.1)[k].0@ == "version"@ {
                    is_dummy(#[trigger] entries(dep_new.1)[k].1)
                } else {
                    entries(dep_new.1)[k] == entries(dep.1)[k]
                })
        }),
{
    let a = entries(old);
    assert(old is Table);
    assert(new is Table);
    assert(entries(new)[i].0 == a[i].0);
    assert(entry_masked(names, Section::Manifest, a[i].0@, a[i].1, entries(new)[i].1));
    reveal_strlit("package");
    reveal_strlit("dependencies");
    reveal_strlit("dev-dependencies");
    reveal_strlit("build-dependencies");
    assert(a[i].0@ != "package"@) by {
        assert(a[i].0@.len() != "package"@.len());
    }
    assert(table_masked(names, Section::Dependencies, a[i].1, entries(new)[i].1));
    let dep = entries(a[i].1)[j];
    let dep_new = entries(entries(new)[i].1)[j];
    assert(a[i].1 is Table);
    assert(dep_new.0 == dep.0);
    assert(entry_masked(names, Section::Dependencies, dep.0@, dep.1, dep_new.1));
    if resolves_local(names, dep.0@, dep.1) {
        assert(table_masked(names, Section::Versioned, dep.1, dep_new.1));
        assert(forall|k: int| 0 <= k < entries(dep.1).len() ==> entries(dep_new.1)[k].0 == entries(dep.1)[k].0);
        assert forall|k: int| 0 <= k < entries(dep.1).len() implies (if entries(dep.1)[k].0@
            == "version"@ {
            is_dummy(#[trigger] entries(dep_new.1)[k].1)
        } else {
            entries(dep_new.1)[k] == entries(dep.1)[k]
        }) by {
            assert(entries(dep_new.1)[k].0 == entries(dep.1)[k].0);
            assert(entry_masked(names, Section::Versioned, entries(dep.1)[k].0@,
                entries(dep.1)[k].1, entries(dep_new.1)[k].1));
        }
    }
}

/// In the lockfile, an entry with a `source` (a registry package, even one
/// named like a local package) is kept exactly, and an entry of a local
/// package without a source gets the dummy version.
pub proof fn lemma_lockfile_masking_scope(names: Seq<Seq<char>>, old: TomlValue, new: TomlValue, i: int, j: int)
    requires
        table_masked(names, Section::Lockfile, old, new),
        0 <= i < entries(old).len(),
        entries(old)[i].0@ == "package"@,
        0 <= j < elements(entries(old)[i].1).len(),
    ensures
        ({
            let p = elements(entries(old)[i].1)[j];
            let p_new = elements(entries(new)[i].1)[j];
            &&& p.field("source"@) is Some ==> p_new == p
            &&& lock_local(names, p) ==> forall|k: int|
                0 <= k < entries(p).len() ==> (if entries(p)[k].0@ == "version"@ {
                    is_dummy(#[trigger] entries(p_new)[k].1)
                } else {
                    entries(p_new)[k] == entries(p)[k]
                })
        }),
{
    let a = entries(old);
    assert(old is Table);
    assert(new is Table);
    assert(entries(new)[i].0 == a[i].0);
    assert(entry_masked(names, Section::Lockfile, a[i].0@, a[i].1, entries(new)[i].1));
    assert(array_masked(names, Section::LockPackage, a[i].1, entries(new)[i].1));
    let p = elements(a[i].1)[j];
    let p_new = elements(entries(new)[i].1)[j];
    assert(a[i].1 is Array);
    assert(entry_masked(names, Section::LockPackage, Seq::empty(), p, p_new));
    if lock_local(names, p) {
        assert(table_masked(names, Section::Versioned, p, p_new));
        assert forall|k: int| 0 <= k < entries(p).len() implies (if entries(p)[k].0@ == "version"@ {
            is_dummy(#[trigger] entries(p_new)[k].1)
        } else {
            entries(p_new)[k] == entries(p)[k]
        }) by {
            assert(entries(p_new)[k].0 == entries(p)[k].0);
            assert(entry_masked(names, Section::Versioned, entries(p)[k].0@, entries(p)[k].1,
                entries(p_new)[k].1));
        }
    }
}

} // verus!
