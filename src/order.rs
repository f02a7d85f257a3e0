//! Orders on text and the uniqueness of sorted sequences.
use vstd::prelude::*;

verus! {

/// The weight of a character in a comparison. For paths the separator
/// weighs least, so that paths compare component by component.
pub open spec fn weight(c: char, path: bool) -> int {
    if path && c == '/' {
        0
    } else {
        c as u32 + 1
    }
}

/// Lexicographic order on character sequences by `weight`: with `path`,
/// the order of relative paths compared component-wise; without it, the
/// order of code points.
pub open spec fn lex_lt(a: Seq<char>, b: Seq<char>, path: bool) -> bool
    decreases a.len(),
{
    if a.len() == 0 {
        b.len() > 0
    } else if b.len() == 0 {
        false
    } else if weight(a[0], path) != weight(b[0], path) {
        weight(a[0], path) < weight(b[0], path)
    } else {
        lex_lt(a.drop_first(), b.drop_first(), path)
    }
}

proof fn lemma_weight_injective(c: char, d: char, path: bool)
    ensures
        weight(c, path) == weight(d, path) ==> c == d,
{
}

pub proof fn lemma_lex_irreflexive(a: Seq<char>, path: bool)
    ensures
        !lex_lt(a, a, path),
    decreases a.len(),
{
    if a.len() > 0 {
        lemma_lex_irreflexive(a.drop_first(), path);
    }
}

pub proof fn lemma_lex_asymmetric(a: Seq<char>, b: Seq<char>, path: bool)
    ensures
        lex_lt(a, b, path) ==> !lex_lt(b, a, path),
    decreases a.len(),
{
    if a.len() > 0 && b.len() > 0 {
        lemma_lex_asymmetric(a.drop_first(), b.drop_first(), path);
    }
}

pub proof fn lemma_lex_transitive(a: Seq<char>, b: Seq<char>, c: Seq<char>, path: bool)
    ensures
        lex_lt(a, b, path) && lex_lt(b, c, path) ==> lex_lt(a, c, path),
    decreases a.len(),
{
    if a.len() > 0 && b.len() > 0 && c.len() > 0 {
        lemma_lex_transitive(a.drop_first(), b.drop_first(), c.drop_first(), path);
    }
}

pub proof fn lemma_lex_total(a: Seq<char>, b: Seq<char>, path: bool)
    ensures
        a != b ==> lex_lt(a, b, path) || lex_lt(b, a, path),
    decreases a.len(),
{
    if a.len() > 0 && b.len() > 0 {
        lemma_weight_injective(a[0], b[0], path);
        lemma_lex_total(a.drop_first(), b.drop_first(), path);
        if a[0] == b[0] && a.drop_first() == b.drop_first() {
            assert(a =~= seq![a[0]] + a.drop_first());
            assert(b =~= seq![b[0]] + b.drop_first());
        }
    } else if a.len() == 0 && b.len() == 0 {
        assert(a =~= b);
    }
}

/// Compares `a` and `b`: -1 when `a` comes first, 1 when `b` does, 0 when
/// they are equal.
pub fn lex_cmp(a: &str, b: &str, path: bool) -> (r: i8)
    ensures
        r == -1 <==> lex_lt(a@, b@, path),
        r == 1 <==> lex_lt(b@, a@, path),
        r == 0 <==> a@ == b@,
{
    let n = a.unicode_len();
    let m = b.unicode_len();
    let mut i: usize = 0;
    assert(a@.subrange(0, n as int) =~= a@);
    assert(b@.subrange(0, m as int) =~= b@);
    while i < n && i < m
        invariant
            n == a@.len(),
            m == b@.len(),
            0 <= i <= n,
            i <= m,
            a@.subrange(0, i as int) == b@.subrange(0, i as int),
            lex_lt(a@, b@, path) == lex_lt(a@.subrange(i as int, n as int), b@.subrange(i as int, m as int), path),
            lex_lt(b@, a@, path) == lex_lt(b@.subrange(i as int, m as int), a@.subrange(i as int, n as int), path),
        decreases n - i,
    {
        let c = a.get_char(i);
        let d = b.get_char(i);
        let ghost sa = a@.subrange(i as int, n as int);
        let ghost sb = b@.subrange(i as int, m as int);
        assert(sa[0] == c && sb[0] == d);
        let wc: u64 = if path && c == '/' { 0 } else { c as u32 as u64 + 1 };
        let wd: u64 = if path && d == '/' { 0 } else { d as u32 as u64 + 1 };
        if wc < wd {
            proof { lemma_lex_asymmetric(a@, b@, path); }
            return -1;
        }
        if wd < wc {
            proof { lemma_lex_asymmetric(a@, b@, path); }
            return 1;
        }
        proof {
            lemma_weight_injective(c, d, path);
            assert(sa.drop_first() =~= a@.subrange(i + 1, n as int));
            assert(sb.drop_first() =~= b@.subrange(i + 1, m as int));
            assert(a@.subrange(0, i + 1) =~= a@.subrange(0, i as int).push(c));
            assert(b@.subrange(0, i + 1) =~= b@.subrange(0, i as int).push(d));
        }
        i = i + 1;
    }
    if i == n && i == m {
        assert(a@ =~= a@.subrange(0, i as int));
        assert(b@ =~= b@.subrange(0, i as int));
        proof { lemma_lex_irreflexive(a@, path); }
        0
    } else if i == n {
        proof {
            if a@ == b@ {
                assert(a@.len() == b@.len());
            }
        }
        -1
    } else {
        proof {
            if a@ == b@ {
                assert(a@.len() == b@.len());
            }
        }
        1
    }
}

/// Every element of `s` comes before every later one.
pub open spec fn strictly_sorted<V>(s: Seq<V>, lt: spec_fn(V, V) -> bool) -> bool {
    forall|i: int, j: int| 0 <= i < j < s.len() ==> lt(#[trigger] s[i], #[trigger] s[j])
}

/// Two sequences sorted strictly by the same irreflexive, asymmetric
/// relation, that hold the same elements, are equal.
pub proof fn lemma_sorted_unique<V>(s: Seq<V>, t: Seq<V>, lt: spec_fn(V, V) -> bool)
    requires
        strictly_sorted(s, lt),
        strictly_sorted(t, lt),
        forall|x: V| s.contains(x) <==> t.contains(x),
        forall|x: V| !(#[trigger] lt(x, x)),
        forall|x: V, y: V| #[trigger] lt(x, y) ==> !lt(y, x),
    ensures
        s == t,
    decreases s.len(),
{
    if s.len() == 0 {
        if t.len() > 0 {
            assert(t.contains(t[0]));
        }
        assert(s =~= t);
    } else {
        assert(s.contains(s[0]));
        assert(t.len() > 0);
        assert(t.contains(t[0]));
        if s[0] != t[0] {
            let k = choose|k: int| 0 <= k < t.len() && t[k] == s[0];
            let m = choose|m: int| 0 <= m < s.len() && s[m] == t[0];
            assert(lt(t[0], t[k]));
            assert(lt(s[0], s[m]));
        }
        let s1 = s.drop_first();
        let t1 = t.drop_first();
        assert forall|x: V| s1.contains(x) implies t1.contains(x) by {
            let i = choose|i: int| 0 <= i < s1.len() && s1[i] == x;
            assert(s.contains(x) && s[i + 1] == x);
            let k = choose|k: int| 0 <= k < t.len() && t[k] == x;
            if k == 0 {
                assert(lt(s[0], s[i + 1]));
            }
            assert(t1[k - 1] == x);
        }
        assert forall|x: V| t1.contains(x) implies s1.contains(x) by {
            let i = choose|i: int| 0 <= i < t1.len() && t1[i] == x;
            assert(t.contains(x) && t[i + 1] == x);
            let k = choose|k: int| 0 <= k < s.len() && s[k] == x;
            if k == 0 {
                assert(lt(t[0], t[i + 1]));
            }
            assert(s1[k - 1] == x);
        }
        assert(strictly_sorted(s1, lt)) by {
            assert forall|i: int, j: int| 0 <= i < j < s1.len() implies lt(s1[i], s1[j]) by {
                assert(s1[i] == s[i + 1] && s1[j] == s[j + 1]);
            }
        }
        assert(strictly_sorted(t1, lt)) by {
            assert forall|i: int, j: int| 0 <= i < j < t1.len() implies lt(t1[i], t1[j]) by {
                assert(t1[i] == t[i + 1] && t1[j] == t[j + 1]);
            }
        }
        lemma_sorted_unique(s1, t1, lt);
        assert(s =~= seq![s[0]] + s1);
        assert(t =~= seq![t[0]] + t1);
    }
}

} // verus!
