//! What the build tool's metadata says of the workspace's packages, and the
//! manifests and targets drawn from it.
use vstd::prelude::*;
use crate::target::{sorted_set_of, sorted_targets, targets_view, Target, TargetKind, TargetView};
use crate::text::{copy_string, join, joined, parent_dir, parent_of, str_eq};

verus! {

/// One target as the metadata lists it: name, kinds, crate types and the
/// absolute path of its root source file.
#[derive(Debug, Clone, PartialEq, Eq)]
pub struct TargetMetadata {
    pub name: String,
    pub kind: Vec<String>,
    pub crate_types: Vec<String>,
    pub src_path: String,
}

/// One package as the metadata lists it.
#[derive(Debug, Clone, PartialEq, Eq)]
pub struct PackageMetadata {
    pub name: String,
    pub manifest_path: String,
    pub targets: Vec<TargetMetadata>,
}

/// The path of `path` relative to `base`, as `pathdiff::diff_paths` gives it.
pub uninterp spec fn diff_path_of(path: Seq<char>, base: Seq<char>) -> Option<Seq<char>>;

/// Relies on `pathdiff::diff_paths`: the path leading from `base` to
/// `path`, or `None` when there is none.
#[verifier::external_body]
pub(crate) fn relative_path(path: &str, base: &str) -> (r: Option<String>)
    ensures
        match r {
            Some(s) => diff_path_of(path@, base@) == Some(s@),
            None => diff_path_of(path@, base@) is None,
        },
{
    pathdiff::diff_paths(path, base).map(|p| p.to_string_lossy().into_owned())
}

/// Whether one of `words` is `w`.
pub open spec fn has_word(words: Seq<String>, w: Seq<char>) -> bool {
    exists|i: int| 0 <= i < words.len() && words[i]@ == w
}

fn has_word_exec(words: &Vec<String>, w: &str) -> (r: bool)
    ensures
        r == has_word(words@, w@),
{
    let mut i: usize = 0;
    while i < words.len()
        invariant
            0 <= i <= words@.len(),
            forall|j: int| 0 <= j < i ==> words@[j]@ != w@,
        decreases words@.len() - i,
    {
        if str_eq(words[i].as_str(), w) {
            return true;
        }
        i = i + 1;
    }
    false
}

/// The kind of a target from its metadata: benchmarks, examples, tests,
/// binaries and build scripts by their kind, anything else a library
/// (whatever its crate type), a procedural-macro one when a crate type
/// says so.
pub open spec fn kind_of(t: TargetMetadata) -> TargetKind {
    if has_word(t.kind@, "bench"@) {
        TargetKind::Bench
    } else if has_word(t.kind@, "example"@) {
        TargetKind::Example
    } else if has_word(t.kind@, "test"@) {
        TargetKind::Test
    } else if has_word(t.kind@, "bin"@) {
        TargetKind::Bin
    } else if has_word(t.kind@, "custom-build"@) {
        TargetKind::BuildScript
    } else {
        TargetKind::Lib { is_proc_macro: has_word(t.crate_types@, "proc-macro"@) }
    }
}

/// The kind of the target described by `t`.
pub fn target_kind(t: &TargetMetadata) -> (r: TargetKind)
    ensures
        r == kind_of(*t),
{
    if has_word_exec(&t.kind, "bench") {
        TargetKind::Bench
    } else if has_word_exec(&t.kind, "example") {
        TargetKind::Example
    } else if has_word_exec(&t.kind, "test") {
        TargetKind::Test
    } else if has_word_exec(&t.kind, "bin") {
        TargetKind::Bin
    } else if has_word_exec(&t.kind, "custom-build") {
        TargetKind::BuildScript
    } else {
        TargetKind::Lib { is_proc_macro: has_word_exec(&t.crate_types, "proc-macro") }
    }
}

/// The directory of a package: that of its manifest.
pub open spec fn package_dir(p: PackageMetadata) -> Seq<char> {
    parent_of(p.manifest_path@)
}

/// Whether every target source of `p` has a path relative to its directory.
pub open spec fn targets_resolve(p: PackageMetadata) -> bool {
    forall|i: int|
        0 <= i < p.targets@.len() ==> (#[trigger] diff_path_of(
            p.targets@[i].src_path@,
            package_dir(p),
        )) is Some
}

/// The targets of `p` as plain values, their paths relative to the
/// package's directory.
pub open spec fn metadata_targets(p: PackageMetadata) -> Seq<TargetView> {
    p.targets@.map_values(
        |t: TargetMetadata|
            (
                match diff_path_of(t.src_path@, package_dir(p)) {
                    Some(rel) => rel,
                    None => Seq::empty(),
                },
                kind_of(t),
                t.name@,
            ),
    )
}

/// The targets of `package`, each once, ordered by path, kind and name;
/// `None` when a target's source has no path relative to the package.
pub fn gather_targets(package: &PackageMetadata) -> (r: Option<Vec<Target>>)
    ensures
        r is Some <==> targets_resolve(*package),
        r matches Some(ts) ==> sorted_set_of(ts@, metadata_targets(*package)),
{
    let dir = parent_dir(package.manifest_path.as_str());
    let mut all: Vec<Target> = Vec::new();
    let mut i: usize = 0;
    while i < package.targets.len()
        invariant
            0 <= i <= package.targets@.len(),
            dir@ == package_dir(*package),
            all@.len() == i,
            forall|k: int| 0 <= k < i ==> (#[trigger] diff_path_of(
                package.targets@[k].src_path@,
                package_dir(*package),
            )) is Some,
            targets_view(all@) == metadata_targets(*package).subrange(0, i as int),
        decreases package.targets@.len() - i,
    {
        let t = &package.targets[i];
        let path = match relative_path(t.src_path.as_str(), dir.as_str()) {
            Some(p) => p,
            None => {
                return None;
            },
        };
        let ghost before = all@;
        all.push(Target { path, kind: target_kind(t), name: copy_string(&t.name) });
        assert(targets_view(all@) =~= metadata_targets(*package).subrange(0, i + 1));
        i = i + 1;
    }
    assert(metadata_targets(*package).subrange(0, i as int) =~= metadata_targets(*package));
    Some(sorted_targets(&all))
}

/// Where a manifest of the workspace lies, absolute and from the workspace
/// root, and the targets found for it.
#[derive(Debug, Clone, PartialEq, Eq)]
pub struct ManifestLocation {
    pub absolute_path: String,
    pub relative_path: String,
    pub targets: Vec<Target>,
}

/// The manifest at the workspace root.
pub open spec fn root_manifest(base: Seq<char>) -> Seq<char> {
    joined(base, "Cargo.toml"@)
}

/// Whether `x` is the manifest of one of `packages`, or the root manifest
/// when the root is no package (a pure workspace definition).
pub open spec fn is_workspace_manifest(
    packages: Seq<PackageMetadata>,
    root_is_package: bool,
    base: Seq<char>,
    x: Seq<char>,
) -> bool {
    (exists|i: int| 0 <= i < packages.len() && packages[i].manifest_path@ == x) || (!root_is_package
        && x == root_manifest(base))
}

/// Whether every target source has a path relative to its package and every
/// workspace manifest one relative to the workspace root.
pub open spec fn workspace_resolves(packages: Seq<PackageMetadata>, root_is_package: bool, base: Seq<char>) -> bool {
    &&& forall|i: int| 0 <= i < packages.len() ==> targets_resolve(#[trigger] packages[i])
    &&& forall|x: Seq<char>|
        is_workspace_manifest(packages, root_is_package, base, x) ==> (#[trigger] diff_path_of(
            x,
            base,
        )) is Some
}

/// What holds of one entry of the manifest list drawn from `packages`.
pub open spec fn location_ok(
    packages: Seq<PackageMetadata>,
    root_is_package: bool,
    base: Seq<char>,
    e: ManifestLocation,
) -> bool {
    &&& diff_path_of(e.absolute_path@, base) == Some(e.relative_path@)
    &&& (exists|i: int|
        0 <= i < packages.len() && packages[i].manifest_path@ == e.absolute_path@ && sorted_set_of(
            e.targets@,
            metadata_targets(packages[i]),
        )) || (!root_is_package && e.absolute_path@ == root_manifest(base) && e.targets@.len() == 0)
}

/// Whether one entry of `v` lies at `x`.
pub open spec fn has_location(v: Seq<ManifestLocation>, x: Seq<char>) -> bool {
    exists|k: int| 0 <= k < v.len() && v[k].absolute_path@ == x
}

spec fn among_first(ps: Seq<PackageMetadata>, n: int, x: Seq<char>) -> bool {
    exists|j: int| 0 <= j < n && ps[j].manifest_path@ == x
}

fn position_of(out: &Vec<ManifestLocation>, path: &str) -> (r: Option<usize>)
    ensures
        match r {
            Some(k) => k < out@.len() && out@[k as int].absolute_path@ == path@,
            None => forall|k: int| 0 <= k < out@.len() ==> out@[k].absolute_path@ != path@,
        },
{
    let mut k: usize = 0;
    while k < out.len()
        invariant
            0 <= k <= out@.len(),
            forall|j: int| 0 <= j < k ==> out@[j].absolute_path@ != path@,
        decreases out@.len() - k,
    {
        if str_eq(out[k].absolute_path.as_str(), path) {
            return Some(k);
        }
        k = k + 1;
    }
    None
}

/// The manifests of the workspace rooted at `base_path`: that of each of
/// `packages` (the workspace members and the root package), each once,
/// and the root manifest when the root is no package. `None` when a path
/// cannot be made relative.
pub fn workspace_manifests(packages: &Vec<PackageMetadata>, root_is_package: bool, base_path: &str) -> (r: Option<Vec<ManifestLocation>>)
    ensures
        r is Some <==> workspace_resolves(packages@, root_is_package, base_path@),
        r matches Some(v) ==> {
            &&& forall|a: int, b: int|
                0 <= a < b < v@.len() ==> v@[a].absolute_path@ != v@[b].absolute_path@
            &&& forall|x: Seq<char>|
                is_workspace_manifest(packages@, root_is_package, base_path@, x) <==> #[trigger] has_location(v@, x)
            &&& forall|k: int|
                0 <= k < v@.len() ==> location_ok(packages@, root_is_package, base_path@, #[trigger] v@[k])
        },
{
    let ghost ps = packages@;
    let ghost base = base_path@;
    let mut out: Vec<ManifestLocation> = Vec::new();
    let mut i: usize = 0;
    while i < packages.len()
        invariant
            0 <= i <= ps.len(),
            ps == packages@,
            base == base_path@,
            forall|k: int| 0 <= k < i ==> targets_resolve(#[trigger] ps[k]),
            forall|a: int, b: int|
                0 <= a < b < out@.len() ==> out@[a].absolute_path@ != out@[b].absolute_path@,
            forall|x: Seq<char>| among_first(ps, i as int, x) <==> #[trigger] has_location(out@, x),
            forall|k: int| 0 <= k < out@.len() ==> location_ok(ps, root_is_package, base, #[trigger] out@[k]),
        decreases ps.len() - i,
    {
        let p = &packages[i];
        let ghost before_out = out@;
        let targets = match gather_targets(p) {
            Some(ts) => ts,
            None => {
                return None;
            },
        };
        match position_of(&out, p.manifest_path.as_str()) {
            Some(k) => {
                assert(out@[k as int].absolute_path@ == p.manifest_path@);
            },
            None => {
                let rel = match relative_path(p.manifest_path.as_str(), base_path) {
                    Some(rel) => rel,
                    None => {
                        assert(is_workspace_manifest(ps, root_is_package, base, p.manifest_path@));
                        return None;
                    },
                };
                out.push(ManifestLocation {
                    absolute_path: copy_string(&p.manifest_path),
                    relative_path: rel,
                    targets,
                });
                assert(out@[before_out.len() as int].absolute_path@ == p.manifest_path@);
            },
        }
        proof {
            assert(out@.len() >= before_out.len());
            assert(forall|k: int| 0 <= k < before_out.len() ==> out@[k] == before_out[k]);
            assert(forall|k: int|
                before_out.len() <= k < out@.len() ==> out@[k].absolute_path@ == p.manifest_path@);
            assert(has_location(out@, p.manifest_path@));
            assert forall|x: Seq<char>| among_first(ps, i + 1, x) <==> #[trigger] has_location(out@, x) by {
                if among_first(ps, i + 1, x) {
                    let j = choose|j: int| 0 <= j < i + 1 && ps[j].manifest_path@ == x;
                    if j < i {
                        assert(among_first(ps, i as int, x));
                        assert(has_location(before_out, x));
                        let k = choose|k: int|
                            0 <= k < before_out.len() && before_out[k].absolute_path@ == x;
                        assert(out@[k] == before_out[k]);
                    }
                }
                if has_location(out@, x) {
                    let k = choose|k: int| 0 <= k < out@.len() && out@[k].absolute_path@ == x;
                    if k < before_out.len() {
                        assert(out@[k] == before_out[k]);
                        assert(has_location(before_out, x));
                        assert(among_first(ps, i as int, x));
                        let j = choose|j: int| 0 <= j < i && ps[j].manifest_path@ == x;
                        assert(0 <= j < i + 1 && ps[j].manifest_path@ == x);
                    } else {
                        assert(ps[i as int].manifest_path@ == x);
                    }
                }
            }
        }
        i = i + 1;
    }
    let ghost looped = out@;
    assert forall|x: Seq<char>| among_first(ps, ps.len() as int, x) <==> #[trigger] has_location(looped, x) by {
    }
    if !root_is_package {
        proof { reveal_strlit("Cargo.toml"); }
        let root = join(base_path, "Cargo.toml");
        match position_of(&out, root.as_str()) {
            Some(k) => {
                assert(out@[k as int].absolute_path@ == root@);
            },
            None => {
                let rel = match relative_path(root.as_str(), base_path) {
                    Some(rel) => rel,
                    None => {
                        assert(is_workspace_manifest(ps, root_is_package, base, root@));
                        return None;
                    },
                };
                out.push(ManifestLocation { absolute_path: root, relative_path: rel, targets: Vec::new() });
                assert(out@[looped.len() as int].absolute_path@ == root_manifest(base));
            },
        }
    }
    proof {
        assert(out@.len() >= looped.len());
        assert(forall|k: int| 0 <= k < looped.len() ==> out@[k] == looped[k]);
        assert forall|x: Seq<char>|
            is_workspace_manifest(ps, root_is_package, base, x) <==> #[trigger] has_location(out@, x) by {
            if among_first(ps, ps.len() as int, x) {
                assert(has_location(looped, x));
                let k = choose|k: int| 0 <= k < looped.len() && looped[k].absolute_path@ == x;
                assert(out@[k] == looped[k]);
            }
            if !root_is_package && x == root_manifest(base) {
                assert(has_location(out@, x));
            }
            if has_location(out@, x) {
                let k = choose|k: int| 0 <= k < out@.len() && out@[k].absolute_path@ == x;
                if k < looped.len() {
                    assert(out@[k] == looped[k]);
                    assert(has_location(looped, x));
                    assert(among_first(ps, ps.len() as int, x));
                } else {
                    assert(!root_is_package && x == root_manifest(base));
                }
            }
        }
        assert forall|x: Seq<char>|
            is_workspace_manifest(ps, root_is_package, base, x) implies (#[trigger] diff_path_of(x, base)) is Some by {
            assert(has_location(out@, x));
            let k = choose|k: int| 0 <= k < out@.len() && out@[k].absolute_path@ == x;
            assert(location_ok(ps, root_is_package, base, out@[k]));
        }
    }
    Some(out)
}

} // verus!
