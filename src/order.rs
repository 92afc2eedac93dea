//! Deterministic result ordering: rank descending, then path, then position.

use std::cmp::Ordering;
use vstd::prelude::*;

verus! {

/// `a` sorts strictly before `b` by code point, character by character.
pub open spec fn chars_lt(a: Seq<char>, b: Seq<char>) -> bool
    decreases a.len(),
{
    if a.len() == 0 {
        b.len() > 0
    } else if b.len() == 0 {
        false
    } else if a[0] != b[0] {
        a[0] < b[0]
    } else {
        chars_lt(a.drop_first(), b.drop_first())
    }
}

/// No two texts sort strictly before each other.
pub proof fn lemma_chars_lt_asymmetric(a: Seq<char>, b: Seq<char>)
    ensures
        chars_lt(a, b) ==> !chars_lt(b, a),
    decreases a.len(),
{
    if a.len() > 0 && b.len() > 0 && a[0] == b[0] {
        lemma_chars_lt_asymmetric(a.drop_first(), b.drop_first());
    }
}

/// Of two different texts, one sorts strictly before the other.
pub proof fn lemma_chars_lt_total(a: Seq<char>, b: Seq<char>)
    requires
        a != b,
    ensures
        chars_lt(a, b) || chars_lt(b, a),
    decreases a.len(),
{
    if a.len() > 0 && b.len() > 0 && a[0] == b[0] {
        if a.drop_first() == b.drop_first() {
            assert(a =~= seq![a[0]] + a.drop_first());
            assert(b =~= seq![b[0]] + b.drop_first());
        }
        lemma_chars_lt_total(a.drop_first(), b.drop_first());
    } else if a.len() == 0 && b.len() == 0 {
        assert(a =~= b);
    }
}

/// What a result list is ordered by: higher `rank` first, then `path`
/// ascending, then the input position `index`.
pub struct SortKey {
    pub rank: u64,
    pub path: Vec<char>,
    pub index: usize,
}

/// `a` sorts strictly before `b`.
pub open spec fn key_before(a: SortKey, b: SortKey) -> bool {
    a.rank > b.rank || (a.rank == b.rank && (chars_lt(a.path@, b.path@) || (a.path@ == b.path@
        && a.index < b.index)))
}

/// `p` maps positions `0..n` one to one onto `0..n`.
pub open spec fn is_permutation(p: Seq<int>, n: nat) -> bool {
    &&& p.len() == n
    &&& forall|i: int| 0 <= i < n ==> 0 <= #[trigger] p[i] < n
    &&& forall|i: int, j: int| 0 <= i < j < n ==> #[trigger] p[i] != #[trigger] p[j]
    &&& forall|k: int| 0 <= k < n ==> #[trigger] hits(p, n, k)
}

/// Some position of `p` below `n` holds `k`.
pub open spec fn hits(p: Seq<int>, n: nat, k: int) -> bool {
    exists|i: int| 0 <= i < n && p[i] == k
}

/// Two permutations that both list `0..n` in increasing order of a strict
/// order `before` (one with no two elements before each other) are the same.
pub proof fn lemma_sorted_permutation_unique(n: nat, p: Seq<int>, q: Seq<int>, before: spec_fn(int, int) -> bool)
    requires
        is_permutation(p, n),
        is_permutation(q, n),
        forall|a: int, b: int| 0 <= a < n && 0 <= b < n && #[trigger] before(a, b) ==> !before(b, a),
        forall|i: int, j: int| 0 <= i < j < n ==> before(#[trigger] p[i], #[trigger] p[j]),
        forall|i: int, j: int| 0 <= i < j < n ==> before(#[trigger] q[i], #[trigger] q[j]),
    ensures
        p == q,
{
    lemma_sorted_prefix_equal(n, p, q, before, n as int);
    assert(p =~= q);
}

proof fn lemma_sorted_prefix_equal(n: nat, p: Seq<int>, q: Seq<int>, before: spec_fn(int, int) -> bool, m: int)
    requires
        is_permutation(p, n),
        is_permutation(q, n),
        forall|a: int, b: int| 0 <= a < n && 0 <= b < n && #[trigger] before(a, b) ==> !before(b, a),
        forall|i: int, j: int| 0 <= i < j < n ==> before(#[trigger] p[i], #[trigger] p[j]),
        forall|i: int, j: int| 0 <= i < j < n ==> before(#[trigger] q[i], #[trigger] q[j]),
        0 <= m <= n,
    ensures
        forall|k: int| 0 <= k < m ==> p[k] == q[k],
    decreases m,
{
    if m > 0 {
        let i = m - 1;
        lemma_sorted_prefix_equal(n, p, q, before, i);
        let x = p[i];
        let y = q[i];
        assert(hits(p, n, y));
        assert(hits(q, n, x));
        let j = choose|j: int| 0 <= j < n && p[j] == y;
        let jj = choose|jj: int| 0 <= jj < n && q[jj] == x;
        if j < i {
            assert(p[j] == q[j]);
            assert(q[j] != q[i]);
        }
        if jj < i {
            assert(p[jj] == q[jj]);
            assert(p[jj] != p[i]);
        }
        if x != y {
            assert(j != i);
            assert(jj != i);
            assert(before(p[i], p[j]));
            assert(before(q[i], q[jj]));
        }
    }
}

/// `v` is ordered by `key_before`.
pub open spec fn keys_sorted(v: Seq<SortKey>) -> bool {
    forall|i: int, j: int| 0 <= i < j < v.len() ==> !key_before(#[trigger] v[j], #[trigger] v[i])
}

/// Compares two texts by code point, character by character.
pub fn compare_chars(a: &[char], b: &[char]) -> (r: Ordering)
    ensures
        (r == Ordering::Less) == chars_lt(a@, b@),
        (r == Ordering::Greater) == chars_lt(b@, a@),
        (r == Ordering::Equal) == (a@ == b@),
{
    let mut i: usize = 0;
    assert(a@.subrange(0, a.len() as int) =~= a@);
    assert(b@.subrange(0, b.len() as int) =~= b@);
    while i < a.len() && i < b.len()
        invariant
            i <= a.len(),
            i <= b.len(),
            a@.subrange(0, i as int) == b@.subrange(0, i as int),
            chars_lt(a@, b@) == chars_lt(a@.subrange(i as int, a.len() as int), b@.subrange(i as int, b.len() as int)),
            chars_lt(b@, a@) == chars_lt(b@.subrange(i as int, b.len() as int), a@.subrange(i as int, a.len() as int)),
        decreases a.len() - i,
    {
        let x = a[i];
        let y = b[i];
        if x != y {
            let ghost sa = a@.subrange(i as int, a.len() as int);
            let ghost sb = b@.subrange(i as int, b.len() as int);
            assert(sa[0] == x && sb[0] == y);
            if x < y {
                return Ordering::Less;
            } else {
                return Ordering::Greater;
            }
        }
        proof {
            let sa = a@.subrange(i as int, a.len() as int);
            let sb = b@.subrange(i as int, b.len() as int);
            assert(sa.drop_first() =~= a@.subrange(i + 1, a.len() as int));
            assert(sb.drop_first() =~= b@.subrange(i + 1, b.len() as int));
            assert(a@.subrange(0, i + 1) =~= a@.subrange(0, i as int).push(x));
            assert(b@.subrange(0, i + 1) =~= b@.subrange(0, i as int).push(y));
        }
        i = i + 1;
    }
    if a.len() < b.len() {
        proof {
            assert(a@.subrange(i as int, a.len() as int).len() == 0);
        }
        Ordering::Less
    } else if b.len() < a.len() {
        proof {
            assert(b@.subrange(i as int, b.len() as int).len() == 0);
        }
        Ordering::Greater
    } else {
        proof {
            assert(a@ =~= a@.subrange(0, i as int));
            assert(b@ =~= b@.subrange(0, i as int));
            assert(a@.subrange(i as int, a.len() as int).len() == 0);
            assert(b@.subrange(i as int, b.len() as int).len() == 0);
        }
        Ordering::Equal
    }
}

/// Compares two keys in result order.
pub fn compare_keys(a: &SortKey, b: &SortKey) -> (r: Ordering)
    ensures
        (r == Ordering::Less) == key_before(*a, *b),
        (r == Ordering::Greater) == key_before(*b, *a),
{
    if a.rank > b.rank {
        Ordering::Less
    } else if a.rank < b.rank {
        Ordering::Greater
    } else {
        match compare_chars(a.path.as_slice(), b.path.as_slice()) {
            Ordering::Less => Ordering::Less,
            Ordering::Greater => Ordering::Greater,
            Ordering::Equal => if a.index < b.index {
                Ordering::Less
            } else if a.index > b.index {
                Ordering::Greater
            } else {
                Ordering::Equal
            },
        }
    }
}

/// Sorts `v` into result order.
///
/// Relies on `slice::sort_by`: the elements are rearranged, none added or
/// lost, so that each is not greater than the next under the comparator,
/// here `compare_keys`, a total order.
#[verifier::external_body]
pub fn sort_keys(v: &mut Vec<SortKey>)
    ensures
        exists|p: Seq<int>|
            is_permutation(p, old(v)@.len()) && #[trigger] final(v)@.len() == old(v)@.len() && forall|i: int|
                0 <= i < p.len() ==> #[trigger] final(v)@[i] == old(v)@[p[i]],
        keys_sorted(final(v)@),
{
    v.sort_by(|a, b| compare_keys(a, b))
}

} // verus!
