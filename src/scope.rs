//! Narrowing a workspace to one of its members.
use vstd::prelude::*;
use crate::metadata::{diff_path_of, relative_path, PackageMetadata};
use crate::text::{copy_string, parent_dir, parent_of, str_eq};
use crate::toml_value::TomlValue;
use crate::version_masking::ParsedManifest;

verus! {

/// The directory, relative to the workspace root, of the first of
/// `packages` named `member`; `None` when there is none or its manifest
/// has no path relative to the root.
pub open spec fn member_dir_in(ps: Seq<PackageMetadata>, root: Seq<char>, member: Seq<char>) -> Option<Seq<char>>
    decreases ps.len(),
{
    if ps.len() == 0 {
        None
    } else if ps[0].name@ == member {
        match diff_path_of(ps[0].manifest_path@, root) {
            Some(p) => Some(parent_of(p)),
            None => None,
        }
    } else {
        member_dir_in(ps.drop_first(), root, member)
    }
}

/// The directory of the member `member` relative to `workspace_root`.
pub fn member_directory(packages: &Vec<PackageMetadata>, workspace_root: &str, member: &str) -> (r: Option<String>)
    ensures
        match r {
            Some(d) => member_dir_in(packages@, workspace_root@, member@) == Some(d@),
            None => member_dir_in(packages@, workspace_root@, member@) is None,
        },
{
    let mut i: usize = 0;
    assert(packages@.subrange(0, packages@.len() as int) =~= packages@);
    while i < packages.len()
        invariant
            0 <= i <= packages@.len(),
            member_dir_in(packages@, workspace_root@, member@) == member_dir_in(
                packages@.subrange(i as int, packages@.len() as int),
                workspace_root@,
                member@,
            ),
        decreases packages@.len() - i,
    {
        let ghost rest = packages@.subrange(i as int, packages@.len() as int);
        assert(rest[0] == packages@[i as int]);
        assert(rest.drop_first() =~= packages@.subrange(i + 1, packages@.len() as int));
        let p = &packages[i];
        if str_eq(p.name.as_str(), member) {
            return match relative_path(p.manifest_path.as_str(), workspace_root) {
                Some(path) => Some(parent_dir(path.as_str())),
                None => None,
            };
        }
        i = i + 1;
    }
    None
}

/// Whether `new` is the value of the `members` entry once the workspace is
/// narrowed to the member directory `dir`: an array of that one path.
pub open spec fn single_member(new: TomlValue, dir: Seq<char>) -> bool {
    match new {
        TomlValue::Array(a) => a@.len() == 1 && a@[0].is_str(dir),
        _ => false,
    }
}

/// Whether the entries `b` of a `[workspace]` table are the entries `a`
/// without `default-members`, and with `members` narrowed to `dir` when it
/// is given; order kept.
pub open spec fn workspace_entries_scoped(
    a: Seq<(String, TomlValue)>,
    b: Seq<(String, TomlValue)>,
    dir: Option<Seq<char>>,
) -> bool
    decreases a.len(),
{
    if a.len() == 0 {
        b.len() == 0
    } else if a.last().0@ == "default-members"@ {
        workspace_entries_scoped(a.drop_last(), b, dir)
    } else {
        &&& b.len() > 0
        &&& b.last().0 == a.last().0
        &&& match dir {
            Some(d) if a.last().0@ == "members"@ => single_member(b.last().1, d),
            _ => b.last().1 == a.last().1,
        }
        &&& workspace_entries_scoped(a.drop_last(), b.drop_last(), dir)
    }
}

/// Whether the manifest contents `new` are `old` with its workspace
/// narrowed: each `workspace` entry that is a table has its entries
/// scoped; everything else is kept.
pub open spec fn contents_scoped(old: TomlValue, new: TomlValue, dir: Option<Seq<char>>) -> bool {
    match old {
        TomlValue::Table(a) => match new {
            TomlValue::Table(b) => {
                &&& b@.len() == a@.len()
                &&& forall|i: int|
                    0 <= i < a@.len() ==> #[trigger] b@[i].0 == a@[i].0 && if a@[i].0@ == "workspace"@
                        && a@[i].1 is Table {
                        b@[i].1 is Table && workspace_entries_scoped(
                            a@[i].1->Table_0@,
                            b@[i].1->Table_0@,
                            dir,
                        )
                    } else {
                        b@[i].1 == a@[i].1
                    }
            },
            _ => false,
        },
        _ => new == old,
    }
}

fn scope_workspace_entries(a: Vec<(String, TomlValue)>, dir: &Option<String>) -> (r: Vec<(String, TomlValue)>)
    ensures
        workspace_entries_scoped(
            a@,
            r@,
            match dir {
                Some(d) => Some(d@),
                None => None,
            },
        ),
{
    let ghost a0 = a@;
    let ghost d = match dir {
        Some(d) => Some(d@),
        None => None,
    };
    let mut a = a;
    let mut b: Vec<(String, TomlValue)> = Vec::new();
    let ghost mut n: int = 0;
    assert(a0.subrange(0, 0).len() == 0);
    while a.len() > 0
        invariant
            0 <= n <= a0.len(),
            d == match dir {
                Some(d) => Some(d@),
                None => None::<Seq<char>>,
            },
            a@ == a0.subrange(n, a0.len() as int),
            workspace_entries_scoped(a0.subrange(0, n), b@, d),
        decreases a@.len(),
    {
        let (k, v) = a.remove(0);
        assert(a0[n] == (k, v));
        let ghost prefix = a0.subrange(0, n + 1);
        assert(prefix.drop_last() =~= a0.subrange(0, n));
        assert(prefix.last() == (k, v));
        if !str_eq(k.as_str(), "default-members") {
            let ghost before = b@;
            let v2 = match dir {
                Some(dd) => {
                    if str_eq(k.as_str(), "members") {
                        let mut one: Vec<TomlValue> = Vec::new();
                        one.push(TomlValue::Str(copy_string(dd)));
                        assert(one@.len() == 1 && one@[0].is_str(dd@));
                        TomlValue::Array(one)
                    } else {
                        v
                    }
                },
                None => v,
            };
            proof {
                if d is Some && k@ == "members"@ {
                    assert(single_member(v2, d->Some_0));
                } else {
                    assert(v2 == v);
                }
            }
            b.push((k, v2));
            assert(b@.drop_last() =~= before);
        }
        proof {
            n = n + 1;
        }
        assert(a@ =~= a0.subrange(n, a0.len() as int));
    }
    assert(a0.subrange(0, n) =~= a0);
    b
}

fn scope_contents(v: TomlValue, dir: &Option<String>) -> (r: TomlValue)
    ensures
        contents_scoped(
            v,
            r,
            match dir {
                Some(d) => Some(d@),
                None => None,
            },
        ),
{
    match v {
        TomlValue::Table(a) => {
            let ghost a_vec = a;
            let ghost a0 = a@;
            let ghost d = match dir {
                Some(d) => Some(d@),
                None => None,
            };
            let mut a = a;
            let mut b: Vec<(String, TomlValue)> = Vec::new();
            while a.len() > 0
                invariant
                    b@.len() + a@.len() == a0.len(),
                    d == match dir {
                        Some(d) => Some(d@),
                        None => None::<Seq<char>>,
                    },
                    a@ == a0.subrange(b@.len() as int, a0.len() as int),
                    forall|i: int|
                        0 <= i < b@.len() ==> #[trigger] b@[i].0 == a0[i].0 && if a0[i].0@
                            == "workspace"@ && a0[i].1 is Table {
                            b@[i].1 is Table && workspace_entries_scoped(
                                a0[i].1->Table_0@,
                                b@[i].1->Table_0@,
                                d,
                            )
                        } else {
                            b@[i].1 == a0[i].1
                        },
                decreases a@.len(),
            {
                let ghost n = b@.len();
                let (k, x) = a.remove(0);
                assert(a0[n as int] == (k, x));
                let ghost xg = x;
                let y = if str_eq(k.as_str(), "workspace") {
                    match x {
                        TomlValue::Table(w) => TomlValue::Table(scope_workspace_entries(w, dir)),
                        other => other,
                    }
                } else {
                    x
                };
                assert(if k@ == "workspace"@ && xg is Table {
                    y is Table && workspace_entries_scoped(xg->Table_0@, y->Table_0@, d)
                } else {
                    y == xg
                });
                let ghost b_before = b@;
                b.push((k, y));
                assert(b@[n as int] == (k, y));
                assert(a0[n as int].1 == xg && a0[n as int].0@ == k@);
                assert(b@[n as int].0 == a0[n as int].0 && if a0[n as int].0@ == "workspace"@
                    && a0[n as int].1 is Table {
                    b@[n as int].1 is Table && workspace_entries_scoped(
                        a0[n as int].1->Table_0@,
                        b@[n as int].1->Table_0@,
                        d,
                    )
                } else {
                    b@[n as int].1 == a0[n as int].1
                });
                assert(forall|i: int| 0 <= i < n ==> b@[i] == b_before[i]);
                assert(a@ =~= a0.subrange(b@.len() as int, a0.len() as int));
            }
            assert(v == TomlValue::Table(a_vec));
            TomlValue::Table(b)
        },
        other => other,
    }
}

/// Whether `i` is the first manifest of `ms` at the workspace root.
pub open spec fn is_root_manifest(ms: Seq<ParsedManifest>, i: int) -> bool {
    &&& 0 <= i < ms.len()
    &&& ms[i].relative_path@ == "Cargo.toml"@
    &&& forall|j: int| 0 <= j < i ==> ms[j].relative_path@ != "Cargo.toml"@
}

/// Narrows the workspace to the package `member`: in the root manifest,
/// the workspace's `members` list becomes the one directory of that
/// package (when `packages` has it) and `default-members` goes. Every
/// manifest stays in the list; all else is kept.
pub fn ignore_all_members_except(
    manifests: &mut Vec<ParsedManifest>,
    packages: &Vec<PackageMetadata>,
    workspace_root: &str,
    member: &str,
)
    ensures
        final(manifests)@.len() == old(manifests)@.len(),
        forall|i: int|
            0 <= i < old(manifests)@.len() ==> {
                &&& (#[trigger] final(manifests)@[i]).relative_path == old(manifests)@[i].relative_path
                &&& final(manifests)@[i].targets == old(manifests)@[i].targets
                &&& if is_root_manifest(old(manifests)@, i) {
                    contents_scoped(
                        old(manifests)@[i].contents,
                        final(manifests)@[i].contents,
                        member_dir_in(packages@, workspace_root@, member@),
                    )
                } else {
                    final(manifests)@[i].contents == old(manifests)@[i].contents
                }
            },
{
    proof { reveal_strlit("Cargo.toml"); }
    let mut w: usize = 0;
    while w < manifests.len()
        invariant
            0 <= w <= manifests@.len(),
            forall|j: int| 0 <= j < w ==> manifests@[j].relative_path@ != "Cargo.toml"@,
        ensures
            0 <= w <= manifests@.len(),
            forall|j: int| 0 <= j < w ==> manifests@[j].relative_path@ != "Cargo.toml"@,
            w < manifests@.len() ==> manifests@[w as int].relative_path@ == "Cargo.toml"@,
        decreases manifests@.len() - w,
    {
        if str_eq(manifests[w].relative_path.as_str(), "Cargo.toml") {
            break;
        }
        w = w + 1;
    }
    if w == manifests.len() {
        return;
    }
    let ghost m0 = manifests@;
    assert(is_root_manifest(m0, w as int));
    let dir = member_directory(packages, workspace_root, member);
    let m = manifests.remove(w);
    let ParsedManifest { relative_path, contents, targets } = m;
    let contents = scope_contents(contents, &dir);
    manifests.insert(w, ParsedManifest { relative_path, contents, targets });
    assert forall|i: int| 0 <= i < m0.len() && i != w implies !is_root_manifest(m0, i) by {
        if i > w {
            assert(m0[w as int].relative_path@ == "Cargo.toml"@);
        }
    }
    assert forall|i: int| 0 <= i < m0.len() && i != w implies #[trigger] manifests@[i] == m0[i] by {
    }
}

/// Once a workspace is narrowed, its table has no `default-members`
/// entry left.
pub proof fn lemma_no_default_members_left(
    a: Seq<(String, TomlValue)>,
    b: Seq<(String, TomlValue)>,
    dir: Option<Seq<char>>,
)
    requires
        workspace_entries_scoped(a, b, dir),
    ensures
        forall|i: int| 0 <= i < b.len() ==> (#[trigger] b[i]).0@ != "default-members"@,
    decreases a.len(),
{
    if a.len() > 0 {
        if a.last().0@ == "default-members"@ {
            lemma_no_default_members_left(a.drop_last(), b, dir);
        } else {
            lemma_no_default_members_left(a.drop_last(), b.drop_last(), dir);
            assert forall|i: int| 0 <= i < b.len() implies (#[trigger] b[i]).0@ != "default-members"@ by {
                if i < b.len() - 1 {
                    assert(b[i] == b.drop_last()[i]);
                }
            }
        }
    }
}

} // verus!
