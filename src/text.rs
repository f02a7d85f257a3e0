//! Small verified helpers on strings and relative paths.
use vstd::prelude::*;

verus! {

/// Character-wise equality of two string slices.
pub fn str_eq(a: &str, b: &str) -> (r: bool)
    ensures
        r == (a@ == b@),
{
    let n = a.unicode_len();
    if n != b.unicode_len() {
        return false;
    }
    let mut i: usize = 0;
    while i < n
        invariant
            n == a@.len(),
            n == b@.len(),
            i <= n,
            forall|j: int| 0 <= j < i ==> a@[j] == b@[j],
        decreases n - i,
    {
        if a.get_char(i) != b.get_char(i) {
            return false;
        }
        i = i + 1;
    }
    assert(a@ =~= b@);
    true
}

/// A fresh `String` holding the characters of `s`.
pub fn owned(s: &str) -> (r: String)
    ensures
        r@ == s@,
{
    String::from_str(s)
}

/// Copy of a `String` with the same characters.
pub fn copy_string(s: &String) -> (r: String)
    ensures
        r@ == s@,
{
    s.clone()
}

} // verus!

verus! {

/// The directory part of a relative path: everything before its last `/`,
/// or the empty path when it has none.
pub open spec fn parent_of(p: Seq<char>) -> Seq<char>
    decreases p.len(),
{
    if p.len() == 0 {
        p
    } else if p.last() == '/' {
        p.drop_last()
    } else {
        parent_of(p.drop_last())
    }
}

/// `p` placed under the directory `dir` (the empty directory is the root).
pub open spec fn joined(dir: Seq<char>, p: Seq<char>) -> Seq<char> {
    if dir.len() == 0 {
        p
    } else {
        dir + seq!['/'] + p
    }
}

proof fn lemma_parent_of_prefix(p: Seq<char>, k: int)
    requires
        0 <= k <= p.len(),
        forall|j: int| k <= j < p.len() ==> p[j] != '/',
    ensures
        parent_of(p) == parent_of(p.subrange(0, k)),
    decreases p.len() - k,
{
    if k < p.len() {
        assert(p.drop_last() =~= p.subrange(0, p.len() - 1));
        lemma_parent_of_prefix(p.drop_last(), k);
        assert(p.drop_last().subrange(0, k) =~= p.subrange(0, k));
    } else {
        assert(p.subrange(0, k) =~= p);
    }
}

/// The directory part of the relative path `p`.
pub fn parent_dir(p: &str) -> (r: String)
    ensures
        r@ == parent_of(p@),
{
    let n = p.unicode_len();
    let mut k: usize = n;
    while k > 0
        invariant
            k <= n == p@.len(),
            forall|j: int| k <= j < n ==> p@[j] != '/',
        decreases k,
    {
        if p.get_char(k - 1) == '/' {
            proof {
                lemma_parent_of_prefix(p@, k as int);
                assert(p@.subrange(0, k as int).drop_last() =~= p@.subrange(0, k - 1));
            }
            return String::from_str(p.substring_char(0, k - 1));
        }
        k = k - 1;
    }
    proof {
        lemma_parent_of_prefix(p@, 0);
    }
    String::new()
}

/// `p` placed under the directory `dir`.
pub fn join(dir: &str, p: &str) -> (r: String)
    ensures
        r@ == joined(dir@, p@),
{
    if dir.unicode_len() == 0 {
        String::from_str(p)
    } else {
        let mut r = String::from_str(dir);
        r.append("/");
        proof {
            reveal_strlit("/");
        }
        r.append(p);
        r
    }
}

} // verus!
