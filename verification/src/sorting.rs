//! Orderings used by listings: lexicographic order of character sequences
//! (the order of `String`'s `Ord`), insertion sort of keyed records by key,
//! and paging of a sorted listing.
use vstd::prelude::*;

use crate::keyed::Keyed;

verus! {

broadcast use vstd::seq_lib::to_multiset_insert;

/// `a` comes strictly before `b` in lexicographic order of characters.
pub open spec fn lex_lt(a: Seq<char>, b: Seq<char>) -> bool
    decreases a.len(),
{
    if a.len() == 0 {
        b.len() > 0
    } else if b.len() == 0 {
        false
    } else if a[0] != b[0] {
        a[0] < b[0]
    } else {
        lex_lt(a.drop_first(), b.drop_first())
    }
}

pub proof fn lemma_lex_irreflexive(a: Seq<char>)
    ensures
        !lex_lt(a, a),
    decreases a.len(),
{
    if a.len() > 0 {
        lemma_lex_irreflexive(a.drop_first());
    }
}

pub proof fn lemma_lex_transitive(a: Seq<char>, b: Seq<char>, c: Seq<char>)
    requires
        lex_lt(a, b),
        lex_lt(b, c),
    ensures
        lex_lt(a, c),
    decreases a.len(),
{
    if a.len() > 0 && b.len() > 0 && c.len() > 0 {
        if a[0] == b[0] && b[0] == c[0] {
            lemma_lex_transitive(a.drop_first(), b.drop_first(), c.drop_first());
        }
    }
}

pub proof fn lemma_lex_total(a: Seq<char>, b: Seq<char>)
    ensures
        a == b || lex_lt(a, b) || lex_lt(b, a),
    decreases a.len(),
{
    if a.len() > 0 && b.len() > 0 && a[0] == b[0] {
        lemma_lex_total(a.drop_first(), b.drop_first());
        if a.drop_first() == b.drop_first() {
            assert(a =~= seq![a[0]] + a.drop_first());
            assert(b =~= seq![b[0]] + b.drop_first());
        }
    } else if a.len() == 0 && b.len() == 0 {
        assert(a =~= b);
    }
}

pub proof fn lemma_lex_asymmetric(a: Seq<char>, b: Seq<char>)
    requires
        lex_lt(a, b),
    ensures
        !lex_lt(b, a),
{
    if lex_lt(b, a) {
        lemma_lex_transitive(a, b, a);
        lemma_lex_irreflexive(a);
    }
}

/// Lexicographic comparison of two character vectors.
pub fn lex_lt_vec(a: &Vec<char>, b: &Vec<char>) -> (r: bool)
    ensures
        r == lex_lt(a@, b@),
{
    let mut i: usize = 0;
    assert(a@.subrange(0, a@.len() as int) =~= a@);
    assert(b@.subrange(0, b@.len() as int) =~= b@);
    assert(a@.subrange(0, 0) =~= b@.subrange(0, 0));
    while i < a.len() && i < b.len() && a[i] == b[i]
        invariant
            i <= a.len() && i <= b.len(),
            a@.subrange(0, i as int) == b@.subrange(0, i as int),
            lex_lt(a@, b@) == lex_lt(a@.subrange(i as int, a@.len() as int), b@.subrange(
                i as int,
                b@.len() as int,
            )),
        decreases a.len() - i,
    {
        proof {
            let sa = a@.subrange(i as int, a@.len() as int);
            let sb = b@.subrange(i as int, b@.len() as int);
            assert(sa.drop_first() =~= a@.subrange(i + 1, a@.len() as int));
            assert(sb.drop_first() =~= b@.subrange(i + 1, b@.len() as int));
        }
        i += 1;
        assert(a@.subrange(0, i as int) =~= b@.subrange(0, i as int));
    }
    if i == a.len() {
        i < b.len()
    } else if i == b.len() {
        false
    } else {
        a[i] < b[i]
    }
}

/// Lexicographic comparison of two strings.
pub fn lex_lt_string(a: &String, b: &String) -> (r: bool)
    ensures
        r == lex_lt(a@, b@),
{
    let av = crate::text::chars_of_string(a);
    let bv = crate::text::chars_of_string(b);
    lex_lt_vec(&av, &bv)
}

/// Keys ascend strictly along `s`.
pub open spec fn sorted_by_key<T: Keyed>(s: Seq<T>) -> bool {
    forall|i: int, j: int| 0 <= i < j < s.len() ==> lex_lt(#[trigger] s[i].key(), #[trigger] s[j].key())
}

/// Sorts records with pairwise distinct keys by ascending key.
pub fn sort_by_key<T: Keyed>(v: Vec<T>) -> (r: Vec<T>)
    requires
        crate::keyed::unique_keys(v@),
    ensures
        sorted_by_key(r@),
        r@.to_multiset() == v@.to_multiset(),
        r@.len() == v@.len(),
{
    let ghost orig = v@;
    let mut src = v;
    let mut out: Vec<T> = Vec::new();
    let ghost mut taken: Seq<T> = Seq::empty();
    while src.len() > 0
        invariant
            crate::keyed::unique_keys(orig),
            orig == taken + src@,
            sorted_by_key(out@),
            out@.to_multiset() == taken.to_multiset(),
            out@.len() == taken.len(),
            forall|k: int| 0 <= k < out@.len() ==> exists|m: int| 0 <= m < taken.len() && #[trigger] out@[k] == taken[m],
        decreases src.len(),
    {
        let x = src.remove(0);
        let ghost pos_x = taken.len() as int;
        proof {
            assert(orig[pos_x] == x);
        }
        // Find the first position whose key is greater than x's key.
        let mut p: usize = 0;
        while p < out.len() && lex_lt_string(out[p].key_ref(), x.key_ref())
            invariant
                p <= out@.len(),
                forall|k: int| 0 <= k < p ==> lex_lt(#[trigger] out@[k].key(), x.key()),
            decreases out@.len() - p,
        {
            p += 1;
        }
        let ghost old_out = out@;
        proof {
            // every element after p has a key above x's key
            assert forall|k: int| p <= k < old_out.len() implies lex_lt(x.key(), #[trigger] old_out[k].key()) by {
                let m = choose|m: int| 0 <= m < taken.len() && old_out[k] == taken[m];
                assert(orig[m] == taken[m]);
                assert(m != pos_x);
                assert(orig[m].key() != orig[pos_x].key());
                lemma_lex_total(old_out[k].key(), x.key());
                if p < old_out.len() {
                    if k > p {
                        assert(lex_lt(old_out[p as int].key(), old_out[k].key()));
                        if lex_lt(old_out[k].key(), x.key()) {
                            lemma_lex_transitive(old_out[p as int].key(), old_out[k].key(), x.key());
                            lemma_lex_asymmetric(old_out[p as int].key(), x.key());
                        }
                    }
                }
            }
        }
        out.insert(p, x);
        proof {
            let n = out@;
            assert forall|i: int, j: int| 0 <= i < j < n.len() implies lex_lt(#[trigger] n[i].key(), #[trigger] n[j].key()) by {
                if j < p {
                    assert(n[i] == old_out[i] && n[j] == old_out[j]);
                } else if j == p {
                    assert(n[i] == old_out[i]);
                } else if i < p {
                    assert(n[i] == old_out[i] && n[j] == old_out[j - 1]);
                    lemma_lex_transitive(old_out[i].key(), x.key(), old_out[j - 1].key());
                } else if i == p {
                    assert(n[j] == old_out[j - 1]);
                } else {
                    assert(n[i] == old_out[i - 1] && n[j] == old_out[j - 1]);
                }
            }
            let nt = taken.push(x);
            assert forall|k: int| 0 <= k < n.len() implies exists|m: int| 0 <= m < nt.len() && #[trigger] n[k] == nt[m] by {
                if k < p {
                    let m = choose|m: int| 0 <= m < taken.len() && old_out[k] == taken[m];
                    assert(nt[m] == taken[m]);
                } else if k == p {
                    assert(nt[taken.len() as int] == x);
                } else {
                    let m = choose|m: int| 0 <= m < taken.len() && old_out[k - 1] == taken[m];
                    assert(nt[m] == taken[m]);
                }
            }
            vstd::seq_lib::to_multiset_build(taken, x);
            taken = nt;
            assert(orig =~= taken + src@);
        }
    }
    proof {
        assert(taken =~= orig);
    }
    out
}

/// The page of `s` that starts at `offset` and holds at most `limit` items
/// (a limit of zero counts as one).
pub open spec fn page_of<T>(s: Seq<T>, offset: nat, limit: nat) -> Seq<T> {
    let lim = if limit < 1 { 1 } else { limit };
    let start = if offset < s.len() { offset } else { s.len() };
    let end = if start + lim < s.len() { start + lim } else { s.len() };
    s.subrange(start as int, end as int)
}

/// Moves out the page of `v` that starts at `offset` and holds at most
/// `max(limit, 1)` items.
pub fn take_page<T>(v: Vec<T>, offset: usize, limit: usize) -> (r: Vec<T>)
    ensures
        r@ == page_of(v@, offset as nat, limit as nat),
{
    let ghost orig = v@;
    let lim = if limit < 1 { 1 } else { limit };
    let n = v.len();
    let start = if offset < n { offset } else { n };
    let end = if lim < n - start { start + lim } else { n };
    let mut src = v;
    let mut out: Vec<T> = Vec::new();
    let mut i: usize = 0;
    while src.len() > 0
        invariant
            src@ == orig.subrange(i as int, n as int),
            n == orig.len(),
            i <= n,
            start <= end <= n,
            out@ == if i <= start { Seq::<T>::empty() } else if i <= end { orig.subrange(start as int, i as int) } else { orig.subrange(start as int, end as int) },
        decreases src.len(),
    {
        let x = src.remove(0);
        proof {
            assert(orig[i as int] == x);
        }
        if i >= start && i < end {
            out.push(x);
        }
        i += 1;
        proof {
            if i <= start {
            } else if i <= end {
                assert(out@ =~= orig.subrange(start as int, i as int));
            } else {
                assert(out@ =~= orig.subrange(start as int, end as int));
            }
        }
    }
    proof {
        if n <= start {
            assert(out@ =~= orig.subrange(start as int, end as int));
        }
    }
    out
}

} // verus!
