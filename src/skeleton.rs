//! The skeleton of a workspace and the scaffold that replays it.
use vstd::prelude::*;
use crate::order::{lemma_lex_asymmetric, lemma_lex_irreflexive, lemma_lex_total, lemma_lex_transitive, lemma_sorted_unique, lex_cmp, lex_lt, strictly_sorted};
use crate::target::{harness_of, placeholder, placeholder_content, target_harness, targets_view, Target, TargetView};
use crate::text::{copy_string, join, joined, owned, parent_dir, parent_of, str_eq};
use crate::toml_value::TomlValue;

verus! {

/// Which of the two toolchain pin files a workspace holds.
#[derive(Debug, Clone, Copy, PartialEq, Eq, Structural)]
pub enum RustToolchainFile {
    Bare,
    Toml,
}

/// One manifest of the workspace: its path from the workspace root, its
/// normalised text and the targets found for it.
#[derive(Debug, Clone, PartialEq, Eq)]
pub struct Manifest {
    pub relative_path: String,
    pub contents: String,
    pub targets: Vec<Target>,
}

/// What a dependency-only build needs of a workspace.
#[derive(Debug, Clone, PartialEq, Eq)]
pub struct Skeleton {
    pub manifests: Vec<Manifest>,
    pub config_file: Option<String>,
    pub lock_file: Option<String>,
    pub rust_toolchain_file: Option<(RustToolchainFile, String)>,
}

/// One file of a scaffold: its path from the scaffold root and its text.
#[derive(Debug, Clone, PartialEq, Eq)]
pub struct ScaffoldFile {
    pub path: String,
    pub contents: String,
}

pub open spec fn file_view(f: ScaffoldFile) -> (Seq<char>, Seq<char>) {
    (f.path@, f.contents@)
}

pub open spec fn files_view(fs: Seq<ScaffoldFile>) -> Seq<(Seq<char>, Seq<char>)> {
    fs.map_values(|f: ScaffoldFile| file_view(f))
}

/// File name of a toolchain pin of kind `kind`.
pub open spec fn toolchain_file_name(kind: RustToolchainFile) -> Seq<char> {
    match kind {
        RustToolchainFile::Bare => "rust-toolchain"@,
        RustToolchainFile::Toml => "rust-toolchain.toml"@,
    }
}

/// Whether `p` is one of the paths `ignored`.
pub open spec fn is_listed(ignored: Seq<String>, p: Seq<char>) -> bool {
    exists|i: int| 0 <= i < ignored.len() && ignored[i]@ == p
}

/// The files written before any manifest: lockfile, toolchain pin and
/// build configuration, each when present.
pub open spec fn prelude_files(sk: Skeleton) -> Seq<(Seq<char>, Seq<char>)> {
    let lock = match sk.lock_file {
        Some(l) => seq![("Cargo.lock"@, l@)],
        None => Seq::empty(),
    };
    let toolchain = match sk.rust_toolchain_file {
        Some((kind, c)) => seq![(toolchain_file_name(kind), c@)],
        None => Seq::empty(),
    };
    let config = match sk.config_file {
        Some(c) => seq![(".cargo/config.toml"@, c@)],
        None => Seq::empty(),
    };
    lock + toolchain + config
}

/// The placeholder file of target `t` of the manifest `m`, whose parsed
/// text is `parsed`.
pub open spec fn target_file(m: Manifest, parsed: TomlValue, t: Target, no_std: bool) -> (
    Seq<char>,
    Seq<char>,
) {
    (
        joined(parent_of(m.relative_path@), t.path@),
        placeholder(t.kind, no_std, target_harness(parsed, t.kind, t.name@)),
    )
}

/// The manifest itself, then one placeholder per target, in target order.
pub open spec fn manifest_files(m: Manifest, parsed: TomlValue, no_std: bool) -> Seq<
    (Seq<char>, Seq<char>),
> {
    seq![(m.relative_path@, m.contents@)] + m.targets@.map_values(
        |t: Target| target_file(m, parsed, t, no_std),
    )
}

/// The files of the first `n` manifests that are not ignored.
pub open spec fn manifests_files(
    ms: Seq<Manifest>,
    parsed: Seq<TomlValue>,
    no_std: bool,
    ignored: Seq<String>,
    n: int,
) -> Seq<(Seq<char>, Seq<char>)>
    decreases n,
{
    if n <= 0 {
        Seq::empty()
    } else {
        let before = manifests_files(ms, parsed, no_std, ignored, n - 1);
        if is_listed(ignored, ms[n - 1].relative_path@) {
            before
        } else {
            before + manifest_files(ms[n - 1], parsed[n - 1], no_std)
        }
    }
}

/// Every file of the scaffold of `sk`, in the order they are written.
pub open spec fn scaffold(sk: Skeleton, parsed: Seq<TomlValue>, no_std: bool, ignored: Seq<String>) -> Seq<
    (Seq<char>, Seq<char>),
> {
    prelude_files(sk) + manifests_files(
        sk.manifests@,
        parsed,
        no_std,
        ignored,
        sk.manifests@.len() as int,
    )
}

fn is_listed_exec(ignored: &Vec<String>, p: &str) -> (r: bool)
    ensures
        r == is_listed(ignored@, p@),
{
    let mut i: usize = 0;
    while i < ignored.len()
        invariant
            0 <= i <= ignored@.len(),
            forall|j: int| 0 <= j < i ==> ignored@[j]@ != p@,
        decreases ignored@.len() - i,
    {
        if str_eq(ignored[i].as_str(), p) {
            return true;
        }
        i = i + 1;
    }
    false
}

fn push_file(out: &mut Vec<ScaffoldFile>, path: String, contents: String)
    ensures
        files_view(final(out)@) == files_view(old(out)@) + seq![(path@, contents@)],
{
    let ghost before = out@;
    out.push(ScaffoldFile { path, contents });
    assert(files_view(out@) =~= files_view(before) + seq![(path@, contents@)]);
}

fn push_manifest_files(out: &mut Vec<ScaffoldFile>, m: &Manifest, parsed: &TomlValue, no_std: bool)
    ensures
        files_view(final(out)@) == files_view(old(out)@) + manifest_files(*m, *parsed, no_std),
{
    let ghost start = files_view(out@);
    push_file(out, copy_string(&m.relative_path), copy_string(&m.contents));
    let dir = parent_dir(m.relative_path.as_str());
    let mut j: usize = 0;
    while j < m.targets.len()
        invariant
            0 <= j <= m.targets@.len(),
            dir@ == parent_of(m.relative_path@),
            files_view(out@) == start + seq![(m.relative_path@, m.contents@)]
                + m.targets@.subrange(0, j as int).map_values(
                |t: Target| target_file(*m, *parsed, t, no_std),
            ),
        decreases m.targets@.len() - j,
    {
        let t = &m.targets[j];
        let harness = harness_of(parsed, t.kind, t.name.as_str());
        let path = join(dir.as_str(), t.path.as_str());
        let contents = owned(placeholder_content(t.kind, no_std, harness));
        push_file(out, path, contents);
        proof {
            assert(m.targets@.subrange(0, j + 1).map_values(
                |t: Target| target_file(*m, *parsed, t, no_std),
            ) =~= m.targets@.subrange(0, j as int).map_values(
                |t: Target| target_file(*m, *parsed, t, no_std),
            ) + seq![target_file(*m, *parsed, *t, no_std)]);
        }
        j = j + 1;
    }
    assert(m.targets@.subrange(0, j as int) =~= m.targets@);
}

impl Skeleton {
    /// Plans the minimum project for this skeleton: the lockfile, toolchain
    /// pin and build configuration when present, then, for each manifest
    /// not listed in `ignored`, the manifest and one placeholder source per
    /// target. `parsed[i]` is the parsed text of the `i`-th manifest; it
    /// tells which tests and benchmarks run under the test harness.
    pub fn build_minimum_project(
        &self,
        parsed: &Vec<TomlValue>,
        no_std: bool,
        ignored: &Vec<String>,
    ) -> (r: Vec<ScaffoldFile>)
        requires
            parsed@.len() == self.manifests@.len(),
        ensures
            files_view(r@) == scaffold(*self, parsed@, no_std, ignored@),
    {
        let mut out: Vec<ScaffoldFile> = Vec::new();
        if let Some(lock) = &self.lock_file {
            proof { reveal_strlit("Cargo.lock"); }
            push_file(&mut out, owned("Cargo.lock"), copy_string(lock));
        }
        if let Some((kind, contents)) = &self.rust_toolchain_file {
            let name = match kind {
                RustToolchainFile::Bare => "rust-toolchain",
                RustToolchainFile::Toml => "rust-toolchain.toml",
            };
            push_file(&mut out, owned(name), copy_string(contents));
        }
        if let Some(config) = &self.config_file {
            push_file(&mut out, owned(".cargo/config.toml"), copy_string(config));
        }
        assert(files_view(out@) =~= prelude_files(*self));
        let mut i: usize = 0;
        while i < self.manifests.len()
            invariant
                0 <= i <= self.manifests@.len() == parsed@.len(),
                files_view(out@) == prelude_files(*self) + manifests_files(
                    self.manifests@,
                    parsed@,
                    no_std,
                    ignored@,
                    i as int,
                ),
            decreases self.manifests@.len() - i,
        {
            let m = &self.manifests[i];
            if !is_listed_exec(ignored, m.relative_path.as_str()) {
                push_manifest_files(&mut out, m, &parsed[i], no_std);
                assert(files_view(out@) =~= prelude_files(*self) + manifests_files(
                    self.manifests@,
                    parsed@,
                    no_std,
                    ignored@,
                    i + 1,
                ));
            }
            i = i + 1;
        }
        out
    }
}

/// A manifest as plain values: path, text, targets.
pub type ManifestView = (Seq<char>, Seq<char>, Seq<TargetView>);

pub open spec fn manifest_view(m: Manifest) -> ManifestView {
    (m.relative_path@, m.contents@, targets_view(m.targets@))
}

pub open spec fn manifests_view(ms: Seq<Manifest>) -> Seq<ManifestView> {
    ms.map_values(|m: Manifest| manifest_view(m))
}

/// The order of manifests: by relative path, compared component-wise.
pub open spec fn path_order() -> spec_fn(ManifestView, ManifestView) -> bool {
    |a: ManifestView, b: ManifestView| lex_lt(a.0, b.0, true)
}

/// Whether no two manifests of `ms` share a path.
pub open spec fn distinct_paths(ms: Seq<Manifest>) -> bool {
    forall|i: int, j: int|
        0 <= i < j < ms.len() ==> (#[trigger] ms[i]).relative_path@ != (#[trigger] ms[j]).relative_path@
}

/// Whether `r` holds the manifests of `input` (as many, and the same
/// ones), each path no smaller than the one before it, strictly ordered when the paths
/// are distinct.
pub open spec fn sorted_by_path(r: Seq<Manifest>, input: Seq<Manifest>) -> bool {
    &&& r.len() == input.len()
    &&& forall|x: ManifestView| manifests_view(r).contains(x) <==> manifests_view(input).contains(x)
    &&& forall|i: int, j: int|
        0 <= i < j < r.len() ==> !lex_lt((#[trigger] r[j]).relative_path@, (#[trigger] r[i]).relative_path@, true)
    &&& distinct_paths(input) ==> strictly_sorted(manifests_view(r), path_order())
}

fn insert_by_path(out: &mut Vec<Manifest>, m: Manifest)
    requires
        forall|i: int, j: int|
            0 <= i < j < old(out)@.len() ==> !lex_lt(
                (#[trigger] old(out)@[j]).relative_path@,
                (#[trigger] old(out)@[i]).relative_path@,
                true,
            ),
    ensures
        final(out)@.len() == old(out)@.len() + 1,
        forall|i: int, j: int|
            0 <= i < j < final(out)@.len() ==> !lex_lt(
                (#[trigger] final(out)@[j]).relative_path@,
                (#[trigger] final(out)@[i]).relative_path@,
                true,
            ),
        forall|x: ManifestView|
            manifests_view(final(out)@).contains(x) <==> (manifests_view(old(out)@).contains(x) || x
                == manifest_view(m)),
        distinct_paths(old(out)@) && (forall|k: int|
            0 <= k < old(out)@.len() ==> (#[trigger] old(out)@[k]).relative_path@ != m.relative_path@)
            ==> distinct_paths(final(out)@),
{
    let ghost o = out@;
    let mut j: usize = 0;
    while j < out.len()
        invariant
            0 <= j <= out@.len(),
            o == out@,
            forall|k: int| 0 <= k < j ==> !lex_lt(m.relative_path@, (#[trigger] o[k]).relative_path@, true),
        ensures
            0 <= j <= out@.len(),
            o == out@,
            forall|k: int| 0 <= k < j ==> !lex_lt(m.relative_path@, (#[trigger] o[k]).relative_path@, true),
            j < out@.len() ==> lex_lt(m.relative_path@, o[j as int].relative_path@, true),
        decreases out@.len() - j,
    {
        let c = lex_cmp(m.relative_path.as_str(), out[j].relative_path.as_str(), true);
        if c == -1 {
            break;
        }
        j = j + 1;
    }
    proof {
        assert forall|k: int| j <= k < o.len() implies lex_lt(m.relative_path@, (#[trigger] o[k]).relative_path@, true) by {
            if k > j {
                lemma_lex_total(o[j as int].relative_path@, o[k].relative_path@, true);
                lemma_lex_transitive(m.relative_path@, o[j as int].relative_path@, o[k].relative_path@, true);
            }
        }
    }
    out.insert(j, m);
    proof {
        let n = out@;
        assert(n =~= o.subrange(0, j as int).push(m) + o.subrange(j as int, o.len() as int));
        assert forall|a: int, b: int| 0 <= a < b < n.len() implies !lex_lt(
            (#[trigger] n[b]).relative_path@,
            (#[trigger] n[a]).relative_path@,
            true,
        ) by {
            if b < j {
                assert(n[a] == o[a] && n[b] == o[b]);
            } else if b == j {
                assert(n[a] == o[a]);
            } else if a < j {
                assert(n[a] == o[a] && n[b] == o[b - 1]);
                lemma_lex_asymmetric(m.relative_path@, o[b - 1].relative_path@, true);
                lemma_lex_transitive(o[b - 1].relative_path@, o[a].relative_path@, m.relative_path@, true);
                lemma_lex_total(o[a].relative_path@, m.relative_path@, true);
                lemma_lex_irreflexive(m.relative_path@, true);
            } else if a == j {
                assert(n[b] == o[b - 1]);
                lemma_lex_asymmetric(m.relative_path@, o[b - 1].relative_path@, true);
            } else {
                assert(n[a] == o[a - 1] && n[b] == o[b - 1]);
            }
        }
        assert forall|x: ManifestView|
            manifests_view(n).contains(x) <==> (manifests_view(o).contains(x) || x == manifest_view(m)) by {
            if manifests_view(n).contains(x) {
                let i = choose|i: int| 0 <= i < manifests_view(n).len() && manifests_view(n)[i] == x;
                if i < j {
                    assert(manifests_view(o)[i] == x);
                } else if i > j {
                    assert(manifests_view(o)[i - 1] == x);
                }
            }
            if manifests_view(o).contains(x) {
                let i = choose|i: int| 0 <= i < manifests_view(o).len() && manifests_view(o)[i] == x;
                if i < j {
                    assert(manifests_view(n)[i] == x);
                } else {
                    assert(manifests_view(n)[i + 1] == x);
                }
            }
            if x == manifest_view(m) {
                assert(manifests_view(n)[j as int] == x);
            }
        }
        if distinct_paths(o) && (forall|k: int|
            0 <= k < o.len() ==> (#[trigger] o[k]).relative_path@ != m.relative_path@) {
            assert forall|a: int, b: int| 0 <= a < b < n.len() implies (#[trigger] n[a]).relative_path@
                != (#[trigger] n[b]).relative_path@ by {
                if b < j {
                    assert(n[a] == o[a] && n[b] == o[b]);
                } else if b == j {
                    assert(n[a] == o[a]);
                } else if a < j {
                    assert(n[a] == o[a] && n[b] == o[b - 1]);
                } else if a == j {
                    assert(n[b] == o[b - 1]);
                } else {
                    assert(n[a] == o[a - 1] && n[b] == o[b - 1]);
                }
            }
        }
    }
}

/// The manifests ordered by relative path.
pub fn sort_manifests(ms: Vec<Manifest>) -> (r: Vec<Manifest>)
    ensures
        sorted_by_path(r@, ms@),
{
    let ghost m0 = ms@;
    let mut ms = ms;
    let mut out: Vec<Manifest> = Vec::new();
    let ghost mut n: int = 0;
    while ms.len() > 0
        invariant
            0 <= n <= m0.len(),
            ms@ == m0.subrange(n, m0.len() as int),
            out@.len() == n,
            forall|x: ManifestView|
                manifests_view(out@).contains(x) <==> manifests_view(m0.subrange(0, n)).contains(x),
            forall|i: int, j: int|
                0 <= i < j < out@.len() ==> !lex_lt(
                    (#[trigger] out@[j]).relative_path@,
                    (#[trigger] out@[i]).relative_path@,
                    true,
                ),
            distinct_paths(m0) ==> distinct_paths(out@),
        decreases ms@.len(),
    {
        let m = ms.remove(0);
        assert(m0[n] == m);
        proof {
            if distinct_paths(m0) {
                assert forall|k: int| 0 <= k < out@.len() implies (#[trigger] out@[k]).relative_path@
                    != m.relative_path@ by {
                    assert(manifests_view(out@)[k] == manifest_view(out@[k]));
                    assert(manifests_view(out@).contains(manifest_view(out@[k])));
                    let q = choose|q: int|
                        0 <= q < manifests_view(m0.subrange(0, n)).len() && manifests_view(
                            m0.subrange(0, n),
                        )[q] == manifest_view(out@[k]);
                    assert(m0[q].relative_path@ == out@[k].relative_path@);
                    assert(m0[q].relative_path@ != m0[n].relative_path@);
                }
            }
        }
        let ghost m_view = manifest_view(m);
        insert_by_path(&mut out, m);
        proof {
            let pre = manifests_view(m0.subrange(0, n));
            let post = manifests_view(m0.subrange(0, n + 1));
            assert(post =~= pre.push(m_view));
            assert forall|x: ManifestView| post.contains(x) <==> (pre.contains(x) || x == m_view) by {
                if pre.contains(x) {
                    let k = choose|k: int| 0 <= k < pre.len() && pre[k] == x;
                    assert(post[k] == x);
                }
                if x == m_view {
                    assert(post[n] == x);
                }
                if post.contains(x) {
                    let k = choose|k: int| 0 <= k < post.len() && post[k] == x;
                    if k < n {
                        assert(pre[k] == x);
                    }
                }
            }
            n = n + 1;
        }
        assert(ms@ =~= m0.subrange(n, m0.len() as int));
    }
    assert(m0.subrange(0, n) =~= m0);
    proof {
        if distinct_paths(m0) {
            assert forall|i: int, j: int| 0 <= i < j < manifests_view(out@).len() implies path_order()(
                #[trigger] manifests_view(out@)[i],
                #[trigger] manifests_view(out@)[j],
            ) by {
                lemma_lex_total(out@[i].relative_path@, out@[j].relative_path@, true);
            }
        }
    }
    out
}

/// Two derivations that find the same manifests, in whatever order,
/// give the same ordered list of manifests, provided no two of them
/// share a path.
pub proof fn lemma_manifest_order_deterministic(
    r1: Seq<Manifest>,
    r2: Seq<Manifest>,
    in1: Seq<Manifest>,
    in2: Seq<Manifest>,
)
    requires
        sorted_by_path(r1, in1),
        sorted_by_path(r2, in2),
        distinct_paths(in1),
        distinct_paths(in2),
        forall|x: ManifestView| manifests_view(in1).contains(x) <==> manifests_view(in2).contains(x),
    ensures
        manifests_view(r1) == manifests_view(r2),
{
    assert forall|x: ManifestView| !(#[trigger] path_order()(x, x)) by {
        lemma_lex_irreflexive(x.0, true);
    }
    assert forall|x: ManifestView, y: ManifestView| #[trigger] path_order()(x, y) implies !path_order()(y, x) by {
        lemma_lex_asymmetric(x.0, y.0, true);
    }
    assert forall|x: ManifestView| manifests_view(r1).contains(x) <==> manifests_view(r2).contains(x) by {
        assert(manifests_view(r1).contains(x) <==> manifests_view(in1).contains(x));
        assert(manifests_view(r2).contains(x) <==> manifests_view(in2).contains(x));
    }
    lemma_sorted_unique(manifests_view(r1), manifests_view(r2), path_order());
}

impl Skeleton {
    /// Assembles the skeleton of a workspace from what was read of it: its
    /// manifests, normalised and masked, in any order, the build
    /// configuration, the lockfile and the toolchain pin. The manifests are
    /// ordered by path, so that the order in which the file system listed
    /// them does not show.
    pub fn derive(
        manifests: Vec<Manifest>,
        config_file: Option<String>,
        lock_file: Option<String>,
        rust_toolchain_file: Option<(RustToolchainFile, String)>,
    ) -> (r: Skeleton)
        ensures
            sorted_by_path(r.manifests@, manifests@),
            r.config_file == config_file,
            r.lock_file == lock_file,
            r.rust_toolchain_file == rust_toolchain_file,
    {
        Skeleton { manifests: sort_manifests(manifests), config_file, lock_file, rust_toolchain_file }
    }
}

} // verus!
