//! Build targets of a package and the placeholder source each one gets.
use vstd::prelude::*;
use crate::toml_value::TomlValue;
use crate::order::{lex_cmp, lex_lt, lemma_lex_asymmetric, lemma_lex_irreflexive, lemma_lex_total, lemma_lex_transitive, lemma_sorted_unique, strictly_sorted};
use crate::text::{copy_string, str_eq};

verus! {

/// The kind of a compilation unit.
#[derive(Debug, Clone, Copy, PartialEq, Eq, Structural, Hash)]
pub enum TargetKind {
    Lib { is_proc_macro: bool },
    Bin,
    Test,
    Bench,
    Example,
    BuildScript,
}

/// One compilation unit of a package: its source file, relative to the
/// manifest's directory, its kind and its name.
#[derive(Debug, Clone, PartialEq, Eq, Hash)]
pub struct Target {
    pub path: String,
    pub kind: TargetKind,
    pub name: String,
}

/// A placeholder that defines a `main` doing nothing.
pub const MAIN_ENTRYPOINT: &'static str = "fn main() {}";

/// A freestanding placeholder for binaries: no standard library, no `main`,
/// a panic handler stub.
pub const NO_STD_ENTRYPOINT: &'static str = "#![no_std]
#![no_main]

#[panic_handler]
fn panic(_: &core::panic::PanicInfo) -> ! {
    loop {}
}
";

/// A freestanding placeholder for test targets that use a harness: a custom
/// test runner that runs nothing.
pub const NO_STD_HARNESS_ENTRYPOINT: &'static str = r#"#![no_std]
#![no_main]
#![feature(custom_test_frameworks)]
#![test_runner(test_runner)]

#[no_mangle]
pub extern "C" fn _init() {}

fn test_runner(_: &[&dyn Fn()]) {}

#[panic_handler]
fn panic(_: &core::panic::PanicInfo) -> ! {
    loop {}
}
"#;

/// A freestanding placeholder for libraries.
pub const NO_STD_LIB: &'static str = "#![no_std]";

/// An empty placeholder.
pub const EMPTY: &'static str = "";

/// Placeholder for a test or benchmark target.
pub open spec fn test_like_content(no_std: bool, harness: bool) -> Seq<char> {
    if no_std {
        if harness { NO_STD_HARNESS_ENTRYPOINT@ } else { NO_STD_ENTRYPOINT@ }
    } else {
        if harness { EMPTY@ } else { MAIN_ENTRYPOINT@ }
    }
}

/// Placeholder source for a target of kind `kind`; `harness` matters for
/// tests and benchmarks only.
pub open spec fn placeholder(kind: TargetKind, no_std: bool, harness: bool) -> Seq<char> {
    match kind {
        TargetKind::BuildScript => MAIN_ENTRYPOINT@,
        TargetKind::Bin | TargetKind::Example => {
            if no_std { NO_STD_ENTRYPOINT@ } else { MAIN_ENTRYPOINT@ }
        },
        TargetKind::Lib { is_proc_macro } => {
            if no_std && !is_proc_macro { NO_STD_LIB@ } else { EMPTY@ }
        },
        TargetKind::Test | TargetKind::Bench => test_like_content(no_std, harness),
    }
}

/// Placeholder source for a target of kind `kind`.
pub fn placeholder_content(kind: TargetKind, no_std: bool, harness: bool) -> (r: &'static str)
    ensures
        r@ == placeholder(kind, no_std, harness),
{
    match kind {
        TargetKind::BuildScript => MAIN_ENTRYPOINT,
        TargetKind::Bin | TargetKind::Example => {
            if no_std { NO_STD_ENTRYPOINT } else { MAIN_ENTRYPOINT }
        },
        TargetKind::Lib { is_proc_macro } => {
            if no_std && !is_proc_macro { NO_STD_LIB } else { EMPTY }
        },
        TargetKind::Test | TargetKind::Bench => {
            if no_std {
                if harness { NO_STD_HARNESS_ENTRYPOINT } else { NO_STD_ENTRYPOINT }
            } else {
                if harness { EMPTY } else { MAIN_ENTRYPOINT }
            }
        },
    }
}

/// The manifest section that lists targets of kind `kind` with their
/// harness flag, if any.
pub open spec fn harness_section(kind: TargetKind) -> Option<Seq<char>> {
    match kind {
        TargetKind::Test => Some("test"@),
        TargetKind::Bench => Some("bench"@),
        _ => None,
    }
}

/// The `harness` flag of one target table; it is on unless set to `false`.
pub open spec fn harness_flag(item: TomlValue) -> bool {
    match item.field("harness"@) {
        Some(TomlValue::Bool(b)) => b,
        _ => true,
    }
}

/// The harness flag of the first entry of `items` named `name`; on when
/// none is.
pub open spec fn harness_in(items: Seq<TomlValue>, name: Seq<char>) -> bool
    decreases items.len(),
{
    if items.len() == 0 {
        true
    } else if items[0].field("name"@) matches Some(n) && n.is_str(name) {
        harness_flag(items[0])
    } else {
        harness_in(items.drop_first(), name)
    }
}

/// Whether the target of kind `kind` named `name` runs under the test
/// harness, as the manifest `contents` declare it.
pub open spec fn target_harness(contents: TomlValue, kind: TargetKind, name: Seq<char>) -> bool {
    match harness_section(kind) {
        Some(section) => match contents.field(section) {
            Some(TomlValue::Array(items)) => harness_in(items@, name),
            _ => true,
        },
        None => true,
    }
}

fn harness_of_item(item: &TomlValue) -> (r: bool)
    ensures
        r == harness_flag(*item),
{
    match item.get("harness") {
        Some(TomlValue::Bool(b)) => *b,
        _ => true,
    }
}

fn item_named(item: &TomlValue, name: &str) -> (r: bool)
    ensures
        r == (item.field("name"@) matches Some(n) && n.is_str(name@)),
{
    match item.get("name") {
        Some(n) => match n.as_str() {
            Some(s) => str_eq(s, name),
            None => false,
        },
        None => false,
    }
}

/// Whether the target of kind `kind` named `name` runs under the test
/// harness, read from the manifest `contents`.
pub fn harness_of(contents: &TomlValue, kind: TargetKind, name: &str) -> (r: bool)
    ensures
        r == target_harness(*contents, kind, name@),
{
    let section = match kind {
        TargetKind::Test => "test",
        TargetKind::Bench => "bench",
        _ => {
            return true;
        },
    };
    match contents.get(section) {
        Some(TomlValue::Array(items)) => {
            let mut i: usize = 0;
            assert(items@.subrange(0, items@.len() as int) =~= items@);
            while i < items.len()
                invariant
                    0 <= i <= items@.len(),
                    target_harness(*contents, kind, name@) == harness_in(
                        items@.subrange(i as int, items@.len() as int),
                        name@,
                    ),
                decreases items@.len() - i,
            {
                proof {
                    let rest = items@.subrange(i as int, items@.len() as int);
                    assert(rest[0] == items@[i as int]);
                    assert(rest.drop_first() =~= items@.subrange(i + 1, items@.len() as int));
                }
                if item_named(&items[i], name) {
                    return harness_of_item(&items[i]);
                }
                i = i + 1;
            }
            true
        },
        _ => true,
    }
}

/// A target as plain values: path, kind, name.
pub type TargetView = (Seq<char>, TargetKind, Seq<char>);

pub open spec fn target_view(t: Target) -> TargetView {
    (t.path@, t.kind, t.name@)
}

pub open spec fn targets_view(ts: Seq<Target>) -> Seq<TargetView> {
    ts.map_values(|t: Target| target_view(t))
}

/// Position of a kind in the order of kinds: libraries (plain before
/// procedural-macro ones), binaries, tests, benchmarks, examples, build
/// scripts.
pub open spec fn kind_rank(k: TargetKind) -> int {
    match k {
        TargetKind::Lib { is_proc_macro } => if is_proc_macro { 1 } else { 0 },
        TargetKind::Bin => 2,
        TargetKind::Test => 3,
        TargetKind::Bench => 4,
        TargetKind::Example => 5,
        TargetKind::BuildScript => 6,
    }
}

/// The order of targets: by path, component-wise, then kind, then name.
pub open spec fn target_lt(a: TargetView, b: TargetView) -> bool {
    if a.0 != b.0 {
        lex_lt(a.0, b.0, true)
    } else if a.1 != b.1 {
        kind_rank(a.1) < kind_rank(b.1)
    } else {
        lex_lt(a.2, b.2, false)
    }
}

pub open spec fn target_order() -> spec_fn(TargetView, TargetView) -> bool {
    |a: TargetView, b: TargetView| target_lt(a, b)
}

proof fn lemma_kind_rank_injective(a: TargetKind, b: TargetKind)
    ensures
        kind_rank(a) == kind_rank(b) ==> a == b,
{
}

proof fn lemma_target_order_props(a: TargetView, b: TargetView, c: TargetView)
    ensures
        !target_lt(a, a),
        target_lt(a, b) ==> !target_lt(b, a),
        target_lt(a, b) && target_lt(b, c) ==> target_lt(a, c),
        a != b ==> target_lt(a, b) || target_lt(b, a),
{
    lemma_lex_irreflexive(a.0, true);
    lemma_lex_irreflexive(a.2, false);
    lemma_lex_asymmetric(a.0, b.0, true);
    lemma_lex_asymmetric(a.2, b.2, false);
    lemma_lex_transitive(a.0, b.0, c.0, true);
    lemma_lex_transitive(a.2, b.2, c.2, false);
    lemma_lex_total(a.0, b.0, true);
    lemma_lex_total(a.2, b.2, false);
    lemma_kind_rank_injective(a.1, b.1);
    lemma_lex_irreflexive(b.0, true);
    lemma_lex_asymmetric(b.0, c.0, true);
    lemma_lex_asymmetric(a.0, c.0, true);
}

/// Whether `r` lists, strictly in target order, exactly the targets of
/// `input`, each once.
pub open spec fn sorted_set_of(r: Seq<Target>, input: Seq<TargetView>) -> bool {
    &&& strictly_sorted(targets_view(r), target_order())
    &&& forall|x: TargetView| targets_view(r).contains(x) <==> input.contains(x)
}

/// Target lists that hold the same targets, in whatever order and however
/// often, become the same list once ordered: the skeleton does not depend
/// on the order in which a directory is read.
pub proof fn lemma_target_order_deterministic(
    r1: Seq<Target>,
    r2: Seq<Target>,
    in1: Seq<TargetView>,
    in2: Seq<TargetView>,
)
    requires
        sorted_set_of(r1, in1),
        sorted_set_of(r2, in2),
        forall|x: TargetView| in1.contains(x) <==> in2.contains(x),
    ensures
        targets_view(r1) == targets_view(r2),
{
    assert forall|x: TargetView| !(#[trigger] target_order()(x, x)) by {
        lemma_target_order_props(x, x, x);
    }
    assert forall|x: TargetView, y: TargetView| #[trigger] target_order()(x, y) implies !target_order()(y, x) by {
        lemma_target_order_props(x, y, x);
    }
    assert forall|x: TargetView| targets_view(r1).contains(x) <==> targets_view(r2).contains(x) by {
        assert(targets_view(r1).contains(x) <==> in1.contains(x));
        assert(targets_view(r2).contains(x) <==> in2.contains(x));
    }
    lemma_sorted_unique(targets_view(r1), targets_view(r2), target_order());
}

/// Compares two targets in target order (-1, 0 or 1).
pub fn target_cmp(a: &Target, b: &Target) -> (r: i8)
    ensures
        r == -1 <==> target_lt(target_view(*a), target_view(*b)),
        r == 1 <==> target_lt(target_view(*b), target_view(*a)),
        r == 0 <==> target_view(*a) == target_view(*b),
{
    proof {
        lemma_target_order_props(target_view(*a), target_view(*b), target_view(*a));
    }
    let c = lex_cmp(a.path.as_str(), b.path.as_str(), true);
    if c != 0 {
        return c;
    }
    let ka: u8 = match a.kind {
        TargetKind::Lib { is_proc_macro } => if is_proc_macro { 1 } else { 0 },
        TargetKind::Bin => 2,
        TargetKind::Test => 3,
        TargetKind::Bench => 4,
        TargetKind::Example => 5,
        TargetKind::BuildScript => 6,
    };
    let kb: u8 = match b.kind {
        TargetKind::Lib { is_proc_macro } => if is_proc_macro { 1 } else { 0 },
        TargetKind::Bin => 2,
        TargetKind::Test => 3,
        TargetKind::Bench => 4,
        TargetKind::Example => 5,
        TargetKind::BuildScript => 6,
    };
    proof { lemma_kind_rank_injective(a.kind, b.kind); }
    if ka < kb {
        return -1;
    }
    if kb < ka {
        return 1;
    }
    lex_cmp(a.name.as_str(), b.name.as_str(), false)
}

/// A target with the same path, kind and name.
pub fn copy_target(t: &Target) -> (r: Target)
    ensures
        target_view(r) == target_view(*t),
{
    Target { path: copy_string(&t.path), kind: t.kind, name: copy_string(&t.name) }
}

/// Inserts `t` into the strictly ordered `out` unless a target equal to it
/// is there already.
fn insert_target(out: &mut Vec<Target>, t: Target)
    requires
        strictly_sorted(targets_view(old(out)@), target_order()),
    ensures
        strictly_sorted(targets_view(final(out)@), target_order()),
        forall|x: TargetView|
            targets_view(final(out)@).contains(x) <==> (targets_view(old(out)@).contains(x) || x
                == target_view(t)),
{
    let ghost o = targets_view(out@);
    let mut j: usize = 0;
    while j < out.len()
        invariant
            0 <= j <= out@.len(),
            o == targets_view(out@),
            strictly_sorted(o, target_order()),
            forall|k: int| 0 <= k < j ==> target_lt(#[trigger] o[k], target_view(t)),
        ensures
            0 <= j <= out@.len(),
            forall|k: int| 0 <= k < j ==> target_lt(#[trigger] o[k], target_view(t)),
            j < out@.len() ==> target_lt(target_view(t), o[j as int]),
        decreases out@.len() - j,
    {
        let c = target_cmp(&out[j], &t);
        assert(o[j as int] == target_view(out@[j as int]));
        if c == 0 {
            assert(o[j as int] == target_view(t));
            assert forall|x: TargetView| o.contains(x) <==> (o.contains(x) || x == target_view(t)) by {
                if x == target_view(t) {
                    assert(o[j as int] == x);
                }
            }
            return;
        }
        if c == 1 {
            break;
        }
        proof {
            lemma_target_order_props(o[j as int], target_view(t), o[j as int]);
        }
        j = j + 1;
    }
    proof {
        assert forall|k: int| j <= k < o.len() implies target_lt(target_view(t), #[trigger] o[k]) by {
            lemma_target_order_props(target_view(t), o[j as int], o[k]);
        }
    }
    out.insert(j, t);
    proof {
        let n = targets_view(out@);
        assert(n =~= o.subrange(0, j as int).push(target_view(t)) + o.subrange(j as int, o.len() as int));
        assert forall|a: int, b: int| 0 <= a < b < n.len() implies target_order()(#[trigger] n[a], #[trigger] n[b]) by {
            if b < j {
                assert(n[a] == o[a] && n[b] == o[b]);
            } else if b == j {
                assert(n[a] == o[a]);
            } else if a < j {
                assert(n[a] == o[a] && n[b] == o[b - 1]);
                lemma_target_order_props(o[a], target_view(t), o[b - 1]);
            } else if a == j {
                assert(n[b] == o[b - 1]);
            } else {
                assert(n[a] == o[a - 1] && n[b] == o[b - 1]);
            }
        }
        assert forall|x: TargetView| n.contains(x) <==> (o.contains(x) || x == target_view(t)) by {
            if n.contains(x) {
                let i = choose|i: int| 0 <= i < n.len() && n[i] == x;
                if i < j {
                    assert(o[i] == x);
                } else if i > j {
                    assert(o[i - 1] == x);
                }
            }
            if o.contains(x) {
                let i = choose|i: int| 0 <= i < o.len() && o[i] == x;
                if i < j {
                    assert(n[i] == x);
                } else {
                    assert(n[i + 1] == x);
                }
            }
            if x == target_view(t) {
                assert(n[j as int] == x);
            }
        }
    }
}

/// The targets of `ts`, each once, in target order.
pub fn sorted_targets(ts: &Vec<Target>) -> (r: Vec<Target>)
    ensures
        sorted_set_of(r@, targets_view(ts@)),
{
    let mut out: Vec<Target> = Vec::new();
    let mut i: usize = 0;
    while i < ts.len()
        invariant
            0 <= i <= ts@.len(),
            strictly_sorted(targets_view(out@), target_order()),
            forall|x: TargetView|
                targets_view(out@).contains(x) <==> targets_view(ts@).subrange(0, i as int).contains(x),
        decreases ts@.len() - i,
    {
        let t = copy_target(&ts[i]);
        insert_target(&mut out, t);
        proof {
            let pre = targets_view(ts@).subrange(0, i as int);
            let post = targets_view(ts@).subrange(0, i + 1);
            assert(post =~= pre.push(target_view(ts@[i as int])));
            assert forall|x: TargetView| post.contains(x) <==> (pre.contains(x) || x == target_view(ts@[i as int])) by {
                if pre.contains(x) {
                    let k = choose|k: int| 0 <= k < pre.len() && pre[k] == x;
                    assert(post[k] == x);
                }
                if x == target_view(ts@[i as int]) {
                    assert(post[i as int] == x);
                }
                if post.contains(x) {
                    let k = choose|k: int| 0 <= k < post.len() && post[k] == x;
                    if k < i {
                        assert(pre[k] == x);
                    }
                }
            }
        }
        i = i + 1;
    }
    assert(targets_view(ts@).subrange(0, i as int) =~= targets_view(ts@));
    out
}

} // verus!
