//! Vectors of records identified by a string key, used as finite maps:
//! lookup, insert-or-replace and removal, with the key-uniqueness invariant.
use vstd::prelude::*;

verus! {

/// A record identified by a string key.
pub trait Keyed: Sized {
    spec fn key(&self) -> Seq<char>;

    fn key_ref(&self) -> (r: &String)
        ensures
            r@ == self.key(),
    ;
}

/// Some record of `s` has key `k`.
pub open spec fn has_key<T: Keyed>(s: Seq<T>, k: Seq<char>) -> bool {
    exists|i: int| 0 <= i < s.len() && #[trigger] s[i].key() == k
}

/// Position of the record with key `k` (meaningful when `has_key`).
pub open spec fn key_index<T: Keyed>(s: Seq<T>, k: Seq<char>) -> int {
    choose|i: int| 0 <= i < s.len() && #[trigger] s[i].key() == k
}

/// The record with key `k`, if any.
pub open spec fn lookup<T: Keyed>(s: Seq<T>, k: Seq<char>) -> Option<T> {
    if has_key(s, k) {
        Some(s[key_index(s, k)])
    } else {
        None
    }
}

/// No two records share a key.
pub open spec fn unique_keys<T: Keyed>(s: Seq<T>) -> bool {
    forall|i: int, j: int|
        0 <= i < s.len() && 0 <= j < s.len() && i != j ==> #[trigger] s[i].key() != #[trigger] s[j].key()
}

/// With unique keys, the record at position `i` is the one found under its key.
pub proof fn lemma_lookup_at<T: Keyed>(s: Seq<T>, i: int)
    requires
        unique_keys(s),
        0 <= i < s.len(),
    ensures
        has_key(s, s[i].key()),
        key_index(s, s[i].key()) == i,
        lookup(s, s[i].key()) == Some(s[i]),
{
    assert(has_key(s, s[i].key()));
}

/// Position of the record with key `k`, if any.
pub fn find_key<T: Keyed>(v: &Vec<T>, k: &String) -> (r: Option<usize>)
    requires
        unique_keys(v@),
    ensures
        match r {
            Some(i) => i < v@.len() && v@[i as int].key() == k@ && key_index(v@, k@) == i
                && has_key(v@, k@),
            None => !has_key(v@, k@),
        },
{
    let mut i: usize = 0;
    while i < v.len()
        invariant
            i <= v@.len(),
            unique_keys(v@),
            forall|j: int| 0 <= j < i ==> v@[j].key() != k@,
        decreases v@.len() - i,
    {
        if *v[i].key_ref() == *k {
            proof {
                lemma_lookup_at(v@, i as int);
            }
            return Some(i);
        }
        i += 1;
    }
    None
}

/// The map after inserting `x` under its key, replacing any record with that key:
/// lookups of other keys are unchanged and the key now finds `x`.
pub open spec fn upserted<T: Keyed>(old: Seq<T>, new: Seq<T>, x: T) -> bool {
    &&& unique_keys(new)
    &&& lookup(new, x.key()) == Some(x)
    &&& forall|k: Seq<char>| k != x.key() ==> #[trigger] lookup(new, k) == lookup(old, k)
}

/// Inserts `x`, replacing the record with the same key in place when there is
/// one and appending it otherwise.
pub fn upsert<T: Keyed>(v: &mut Vec<T>, x: T) -> (replaced: bool)
    requires
        unique_keys(old(v)@),
    ensures
        upserted(old(v)@, final(v)@, x),
        replaced == has_key(old(v)@, x.key()),
        replaced ==> final(v)@ == old(v)@.update(key_index(old(v)@, x.key()), x),
        !replaced ==> final(v)@ == old(v)@.push(x),
{
    let ghost o = v@;
    let ghost xk = x.key();
    match find_key(v, x.key_ref()) {
        Some(i) => {
            v.set(i, x);
            proof {
                let n = v@;
                assert forall|a: int, b: int| 0 <= a < n.len() && 0 <= b < n.len() && a != b implies #[trigger] n[a].key()
                    != #[trigger] n[b].key() by {
                    if a != i && b != i {
                        assert(n[a] == o[a] && n[b] == o[b]);
                    } else if a == i {
                        assert(n[b] == o[b]);
                        assert(o[i as int].key() == xk);
                    } else {
                        assert(n[a] == o[a]);
                        assert(o[i as int].key() == xk);
                    }
                }
                lemma_lookup_at(n, i as int);
                assert forall|k: Seq<char>| k != xk implies #[trigger] lookup(n, k) == lookup(o, k) by {
                    if has_key(o, k) {
                        let j = key_index(o, k);
                        assert(j != i);
                        assert(n[j] == o[j]);
                        lemma_lookup_at(n, j);
                    }
                    if has_key(n, k) {
                        let j = key_index(n, k);
                        assert(j != i);
                        assert(n[j] == o[j]);
                        lemma_lookup_at(o, j);
                    }
                }
            }
            true
        },
        None => {
            v.push(x);
            proof {
                let n = v@;
                let last = o.len() as int;
                assert forall|a: int, b: int| 0 <= a < n.len() && 0 <= b < n.len() && a != b implies #[trigger] n[a].key()
                    != #[trigger] n[b].key() by {
                    if a != last && b != last {
                        assert(n[a] == o[a] && n[b] == o[b]);
                    } else if a == last {
                        assert(n[b] == o[b]);
                        assert(!(o[b].key() == xk));
                    } else {
                        assert(n[a] == o[a]);
                        assert(!(o[a].key() == xk));
                    }
                }
                lemma_lookup_at(n, last);
                assert forall|k: Seq<char>| k != xk implies #[trigger] lookup(n, k) == lookup(o, k) by {
                    if has_key(o, k) {
                        let j = key_index(o, k);
                        assert(n[j] == o[j]);
                        lemma_lookup_at(n, j);
                    }
                    if has_key(n, k) {
                        let j = key_index(n, k);
                        assert(j != last);
                        assert(n[j] == o[j]);
                        lemma_lookup_at(o, j);
                    }
                }
            }
            false
        },
    }
}

/// The map after removing key `k`.
pub open spec fn removed<T: Keyed>(old: Seq<T>, new: Seq<T>, k: Seq<char>) -> bool {
    &&& unique_keys(new)
    &&& !has_key(new, k)
    &&& forall|k2: Seq<char>| k2 != k ==> #[trigger] lookup(new, k2) == lookup(old, k2)
}

/// Removes the record with key `k`, if any, and returns it.
pub fn remove_key<T: Keyed>(v: &mut Vec<T>, k: &String) -> (r: Option<T>)
    requires
        unique_keys(old(v)@),
    ensures
        removed(old(v)@, final(v)@, k@),
        r == lookup(old(v)@, k@),
{
    let ghost o = v@;
    match find_key(v, k) {
        None => None,
        Some(i) => {
            let x = v.remove(i);
            proof {
                let n = v@;
                assert forall|a: int| 0 <= a < n.len() implies #[trigger] n[a] == o[if a < i { a } else { a + 1 }] by {}
                assert forall|a: int, b: int| 0 <= a < n.len() && 0 <= b < n.len() && a != b implies #[trigger] n[a].key()
                    != #[trigger] n[b].key() by {
                    let a2 = if a < i { a } else { a + 1 };
                    let b2 = if b < i { b } else { b + 1 };
                    assert(n[a] == o[a2] && n[b] == o[b2]);
                }
                if has_key(n, k@) {
                    let j = key_index(n, k@);
                    let j2 = if j < i { j } else { j + 1 };
                    assert(n[j] == o[j2]);
                }
                assert forall|k2: Seq<char>| k2 != k@ implies #[trigger] lookup(n, k2) == lookup(o, k2) by {
                    if has_key(o, k2) {
                        let j = key_index(o, k2);
                        assert(j != i);
                        let j1 = if j < i { j } else { j - 1 };
                        assert(n[j1] == o[j]);
                        lemma_lookup_at(n, j1);
                    }
                    if has_key(n, k2) {
                        let j = key_index(n, k2);
                        let j2 = if j < i { j } else { j + 1 };
                        assert(n[j] == o[j2]);
                        lemma_lookup_at(o, j2);
                    }
                }
                lemma_lookup_at(o, i as int);
            }
            Some(x)
        },
    }
}

/// Position of the first record with key `k`.
pub open spec fn first_key_index<T: Keyed>(s: Seq<T>, k: Seq<char>) -> int {
    choose|i: int| 0 <= i < s.len() && s[i].key() == k && forall|j: int| 0 <= j < i ==> #[trigger] s[j].key() != k
}

/// Position of the first record with key `k`, whether or not keys are unique.
pub fn find_first_key<T: Keyed>(v: &Vec<T>, k: &String) -> (r: Option<usize>)
    ensures
        match r {
            Some(i) => i < v@.len() && v@[i as int].key() == k@ && (forall|j: int| 0 <= j < i ==> #[trigger] v@[j].key() != k@)
                && first_key_index(v@, k@) == i && has_key(v@, k@),
            None => !has_key(v@, k@),
        },
{
    let mut i: usize = 0;
    while i < v.len()
        invariant
            i <= v@.len(),
            forall|j: int| 0 <= j < i ==> #[trigger] v@[j].key() != k@,
        decreases v@.len() - i,
    {
        if *v[i].key_ref() == *k {
            proof {
                let c = first_key_index(v@, k@);
                assert(v@[i as int].key() == k@);
                assert(c == i) by {
                    if c < i {
                    } else if c > i {
                    }
                }
            }
            return Some(i);
        }
        i += 1;
    }
    None
}

/// Filtering a sequence with unique keys keeps the keys unique.
pub proof fn lemma_filter_unique_keys<T: Keyed>(s: Seq<T>, pred: spec_fn(T) -> bool)
    requires
        unique_keys(s),
    ensures
        unique_keys(s.filter(pred)),
    decreases s.len(),
{
    reveal_with_fuel(Seq::filter, 1);
    if s.len() > 0 {
        lemma_filter_unique_keys(s.drop_last(), pred);
        let f = s.drop_last().filter(pred);
        assert forall|a: int, b: int| 0 <= a < s.drop_last().len() && 0 <= b < s.drop_last().len() && a != b implies
            #[trigger] s.drop_last()[a].key() != #[trigger] s.drop_last()[b].key() by {
            assert(s.drop_last()[a] == s[a] && s.drop_last()[b] == s[b]);
        }
        if pred(s.last()) {
            let g = f.push(s.last());
            assert forall|a: int, b: int| 0 <= a < g.len() && 0 <= b < g.len() && a != b implies
                #[trigger] g[a].key() != #[trigger] g[b].key() by {
                if a < f.len() && b < f.len() {
                } else {
                    let other = if a < f.len() { a } else { b };
                    s.drop_last().lemma_filter_contains_rev(pred, f[other]);
                    assert(s.drop_last().contains(f[other]));
                    let m = choose|m: int| 0 <= m < s.drop_last().len() && s.drop_last()[m] == f[other];
                    assert(s[m] == f[other]);
                    assert(m != s.len() - 1);
                }
            }
        }
    }
}

/// The last record of `items` with key `k`, if any.
pub open spec fn last_by_key<T: Keyed>(items: Seq<T>, k: Seq<char>) -> Option<T>
    decreases items.len(),
{
    if items.len() == 0 {
        None
    } else if items.last().key() == k {
        Some(items.last())
    } else {
        last_by_key(items.drop_last(), k)
    }
}

/// The index of the last record of `v` with key `k`.
pub fn find_last_key<T: Keyed>(v: &Vec<T>, k: &String) -> (r: Option<usize>)
    ensures
        match r {
            Some(i) => i < v@.len() && last_by_key(v@, k@) == Some(v@[i as int]),
            None => last_by_key(v@, k@) is None,
        },
{
    let mut i: usize = v.len();
    proof {
        assert(v@.subrange(0, i as int) =~= v@);
    }
    while i > 0
        invariant
            i <= v@.len(),
            last_by_key(v@, k@) == last_by_key(v@.subrange(0, i as int), k@),
        decreases i,
    {
        let ghost pre = v@.subrange(0, i as int);
        proof {
            assert(pre.drop_last() =~= v@.subrange(0, i - 1));
            assert(pre.last() == v@[i - 1]);
        }
        if *v[i - 1].key_ref() == *k {
            return Some(i - 1);
        }
        i -= 1;
    }
    None
}

/// A lookup after inserting `items` in order over `old`: the last record with the key wins.
pub open spec fn overlay_lookup<T: Keyed>(old: Seq<T>, items: Seq<T>, k: Seq<char>) -> Option<T> {
    match last_by_key(items, k) {
        Some(x) => Some(x),
        None => lookup(old, k),
    }
}

/// Inserts every record of `items` in order, each replacing the record with its key.
pub fn upsert_all<T: Keyed>(v: &mut Vec<T>, items: Vec<T>)
    requires
        unique_keys(old(v)@),
    ensures
        unique_keys(final(v)@),
        forall|k: Seq<char>| #[trigger] lookup(final(v)@, k) == overlay_lookup(old(v)@, items@, k),
        final(v)@.len() <= old(v)@.len() + items@.len(),
{
    let ghost o = v@;
    let ghost all = items@;
    let mut items = items;
    let mut rest: Vec<T> = Vec::new();
    // Take the items out from the back, then insert them from the front.
    while items.len() > 0
        invariant
            items@.len() + rest@.len() == all.len(),
            forall|j: int| 0 <= j < items@.len() ==> #[trigger] items@[j] == all[j],
            forall|j: int| 0 <= j < rest@.len() ==> #[trigger] rest@[j] == all[all.len() - 1 - j],
        decreases items@.len(),
    {
        let x = items.pop().unwrap();
        rest.push(x);
    }
    let mut i: usize = 0;
    let n = rest.len();
    while rest.len() > 0
        invariant
            rest@.len() + i == n,
            n == all.len(),
            forall|j: int| 0 <= j < rest@.len() ==> #[trigger] rest@[j] == all[all.len() - 1 - j],
            unique_keys(v@),
            v@.len() <= o.len() + i,
            forall|k: Seq<char>| #[trigger] lookup(v@, k) == overlay_lookup(o, all.subrange(0, i as int), k),
        decreases rest@.len(),
    {
        let x = rest.pop().unwrap();
        let ghost xg = x;
        let ghost before = v@;
        assert(xg == all[i as int]);
        upsert(v, x);
        proof {
            let pre = all.subrange(0, i as int);
            let post = all.subrange(0, i + 1);
            assert(post.drop_last() =~= pre);
            assert(post.last() == xg);
            assert forall|k: Seq<char>| #[trigger] lookup(v@, k) == overlay_lookup(o, post, k) by {
                if k == xg.key() {
                    assert(last_by_key(post, k) == Some(xg));
                } else {
                    assert(last_by_key(post, k) == last_by_key(pre, k));
                    assert(lookup(v@, k) == lookup(before, k));
                }
            }
        }
        i += 1;
    }
    proof {
        assert(all.subrange(0, i as int) =~= all);
    }
}

} // verus!
