//! Facts about sequences: what an insertion does to a sequence and to the
//! join of sequences, and what a filter leaves alone.

use vstd::prelude::*;

verus! {

/// Inserting into the second of two joined sequences inserts into their
/// join, at the index shifted by the length of the first.
pub proof fn lemma_insert_after<T>(a: Seq<T>, b: Seq<T>, k: int, item: T)
    requires
        0 <= k <= b.len(),
    ensures
        a + b.insert(k, item) == (a + b).insert(a.len() + k, item),
{
    assert(a + b.insert(k, item) =~= (a + b).insert(a.len() + k, item));
}

/// Inserting into one of four joined sequences inserts into their join, at
/// the index shifted by the lengths of the sequences before.
pub proof fn lemma_insert_in_join<T>(a: Seq<T>, b: Seq<T>, c: Seq<T>, d: Seq<T>, k: int, item: T)
    ensures
        0 <= k <= a.len() ==> a.insert(k, item) + b + c + d == (a + b + c + d).insert(k, item),
        0 <= k <= b.len() ==> a + b.insert(k, item) + c + d == (a + b + c + d).insert(
            a.len() + k,
            item,
        ),
        0 <= k <= c.len() ==> a + b + c.insert(k, item) + d == (a + b + c + d).insert(
            a.len() + b.len() + k,
            item,
        ),
        0 <= k <= d.len() ==> a + b + c + d.insert(k, item) == (a + b + c + d).insert(
            a.len() + b.len() + c.len() + k,
            item,
        ),
{
    let empty = Seq::<T>::empty();
    if 0 <= k <= a.len() {
        lemma_insert_between(empty, a, b + c + d, k, item);
        assert(empty + a.insert(k, item) + (b + c + d) =~= a.insert(k, item) + b + c + d);
        assert(empty + a + (b + c + d) =~= a + b + c + d);
    }
    if 0 <= k <= b.len() {
        lemma_insert_between(a, b, c + d, k, item);
        assert(a + b.insert(k, item) + (c + d) =~= a + b.insert(k, item) + c + d);
        assert(a + b + (c + d) =~= a + b + c + d);
    }
    if 0 <= k <= c.len() {
        lemma_insert_between(a + b, c, d, k, item);
    }
    if 0 <= k <= d.len() {
        lemma_insert_after(a + b + c, d, k, item);
    }
}

/// Inserting into the middle one of three joined sequences inserts into
/// their join, at the index shifted by the length of the first.
pub proof fn lemma_insert_between<T>(a: Seq<T>, b: Seq<T>, c: Seq<T>, k: int, item: T)
    requires
        0 <= k <= b.len(),
    ensures
        a + b.insert(k, item) + c == (a + b + c).insert(a.len() + k, item),
{
    assert(a + b.insert(k, item) + c =~= (a + b + c).insert(a.len() + k, item));
}

/// The item at index `j` of a sequence after an insertion at index `k`.
pub proof fn lemma_insert_index<T>(s: Seq<T>, k: int, a: T, j: int)
    requires
        0 <= k <= s.len(),
        0 <= j <= s.len(),
    ensures
        s.insert(k, a).len() == s.len() + 1,
        s.insert(k, a)[j] == if j < k {
            s[j]
        } else if j == k {
            a
        } else {
            s[j - 1]
        },
{
}

/// What a sequence holds after an insertion: the new item and what it held
/// before.
pub proof fn lemma_insert_contains<T>(s: Seq<T>, k: int, a: T)
    requires
        0 <= k <= s.len(),
    ensures
        forall|p: T| #[trigger] s.insert(k, a).contains(p) <==> (p == a || s.contains(p)),
{
    let t = s.insert(k, a);
    assert forall|p: T| #[trigger] t.contains(p) <==> (p == a || s.contains(p)) by {
        if t.contains(p) {
            let j = choose|j: int| 0 <= j < t.len() && t[j] == p;
            lemma_insert_index(s, k, a, j);
            if j < k {
                assert(s[j] == p);
            } else if j > k {
                assert(s[j - 1] == p);
            }
        }
        if p == a {
            lemma_insert_index(s, k, a, k);
            assert(t[k] == p);
        }
        if s.contains(p) {
            let i = choose|i: int| 0 <= i < s.len() && s[i] == p;
            if i < k {
                lemma_insert_index(s, k, a, i);
                assert(t[i] == p);
            } else {
                lemma_insert_index(s, k, a, i + 1);
                assert(t[i + 1] == p);
            }
        }
    }
}

/// Where nothing occurs twice in a sequence, nothing does after the
/// insertion of an item that is new to it.
pub proof fn lemma_insert_no_duplicates<T>(s: Seq<T>, k: int, a: T)
    requires
        0 <= k <= s.len(),
        s.no_duplicates(),
        !s.contains(a),
    ensures
        s.insert(k, a).no_duplicates(),
{
}

/// A filter that every item passes changes nothing.
pub proof fn lemma_filter_keeps_all<T>(s: Seq<T>, pred: spec_fn(T) -> bool)
    requires
        forall|i: int| 0 <= i < s.len() ==> pred(#[trigger] s[i]),
    ensures
        s.filter(pred) == s,
    decreases s.len(),
{
    reveal(Seq::filter);
    if s.len() > 0 {
        lemma_filter_keeps_all(s.drop_last(), pred);
    }
}

} // verus!
