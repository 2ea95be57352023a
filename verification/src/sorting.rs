//! Stable sorting of directory entries by their sort key.
//!
//! The sort is specified as repeated ordered insertion: each element, in
//! input order, is placed after every element it does not strictly precede.
//! That is exactly a stable sort under [`key_lt`], and it is what the
//! executable builders implement with an insert-position scan.

use vstd::prelude::*;
use crate::order::{EntryKey, key_lt};

verus! {

/// Something a listing sorts: it exposes a (kind, name) sort key.
pub trait Keyed {
    spec fn key(&self) -> EntryKey;
}

/// Insert `x` into `s` immediately before the first element that `x`
/// strictly precedes.
pub open spec fn insert_by<T: Keyed>(s: Seq<T>, x: T) -> Seq<T>
    decreases s.len(),
{
    if s.len() == 0 {
        seq![x]
    } else if key_lt(x.key(), s[0].key()) {
        seq![x] + s
    } else {
        seq![s[0]] + insert_by(s.drop_first(), x)
    }
}

/// Stable sort by [`EntryKey`]: folders before files, case-insensitive name
/// order within a kind, input order among equal keys.
pub open spec fn sort_by_key<T: Keyed>(s: Seq<T>) -> Seq<T>
    decreases s.len(),
{
    if s.len() == 0 {
        Seq::<T>::empty()
    } else {
        insert_by(sort_by_key(s.drop_last()), s.last())
    }
}

pub proof fn lemma_insert_by_len<T: Keyed>(s: Seq<T>, x: T)
    ensures
        insert_by(s, x).len() == s.len() + 1,
    decreases s.len(),
{
    if s.len() != 0 && !key_lt(x.key(), s[0].key()) {
        lemma_insert_by_len(s.drop_first(), x);
    }
}

/// Inserting adds exactly the new element to the members of the sequence.
pub proof fn lemma_insert_by_contains<T: Keyed>(s: Seq<T>, x: T, y: T)
    ensures
        insert_by(s, x).contains(y) <==> (s.contains(y) || y == x),
    decreases s.len(),
{
    if s.len() != 0 && !key_lt(x.key(), s[0].key()) {
        lemma_insert_by_contains(s.drop_first(), x, y);
        assert(s.contains(y) <==> (y == s[0] || s.drop_first().contains(y))) by {
            if s.contains(y) {
                let i = choose|i: int| 0 <= i < s.len() && s[i] == y;
                if i > 0 {
                    assert(s.drop_first()[i - 1] == y);
                }
            }
            if s.drop_first().contains(y) {
                let i = choose|i: int| 0 <= i < s.drop_first().len() && s.drop_first()[i] == y;
                assert(s[i + 1] == y);
            }
        }
        let r = seq![s[0]] + insert_by(s.drop_first(), x);
        assert(r.contains(y) <==> (y == s[0] || insert_by(s.drop_first(), x).contains(y))) by {
            if r.contains(y) {
                let i = choose|i: int| 0 <= i < r.len() && r[i] == y;
                if i > 0 {
                    assert(insert_by(s.drop_first(), x)[i - 1] == y);
                }
            }
            if insert_by(s.drop_first(), x).contains(y) {
                let i = choose|i: int|
                    0 <= i < insert_by(s.drop_first(), x).len() && insert_by(s.drop_first(), x)[i]
                        == y;
                assert(r[i + 1] == y);
            }
            assert(r[0] == s[0]);
        }
    } else {
        let r = insert_by(s, x);
        assert(r.len() == s.len() + 1);
        assert(r[0] == if s.len() == 0 || key_lt(x.key(), s[0].key()) {
            x
        } else {
            s[0]
        });
        if s.len() == 0 {
            assert(r[0] == x);
            if r.contains(y) {
                let i = choose|i: int| 0 <= i < r.len() && r[i] == y;
                assert(i == 0);
            }
        } else {
            // x goes in front: r == seq![x] + s
            assert(r == seq![x] + s);
            if r.contains(y) {
                let i = choose|i: int| 0 <= i < r.len() && r[i] == y;
                if i > 0 {
                    assert(s[i - 1] == y);
                }
            }
            if s.contains(y) {
                let i = choose|i: int| 0 <= i < s.len() && s[i] == y;
                assert(r[i + 1] == y);
            }
            assert(r[0] == x);
        }
    }
}

/// Sorting neither adds nor removes members.
pub proof fn lemma_sort_by_key_contains<T: Keyed>(s: Seq<T>, y: T)
    ensures
        sort_by_key(s).contains(y) <==> s.contains(y),
    decreases s.len(),
{
    if s.len() != 0 {
        lemma_sort_by_key_contains(s.drop_last(), y);
        lemma_insert_by_contains(sort_by_key(s.drop_last()), s.last(), y);
        assert(s.contains(y) <==> (s.drop_last().contains(y) || y == s.last())) by {
            if s.contains(y) {
                let i = choose|i: int| 0 <= i < s.len() && s[i] == y;
                if i < s.len() - 1 {
                    assert(s.drop_last()[i] == y);
                }
            }
            if s.drop_last().contains(y) {
                let i = choose|i: int| 0 <= i < s.drop_last().len() && s.drop_last()[i] == y;
                assert(s[i] == y);
            }
        }
    }
}

/// The recursive insertion lands at the first position whose element `x`
/// strictly precedes; this justifies the executable insert-position scan.
pub proof fn lemma_insert_by_at<T: Keyed>(s: Seq<T>, x: T, p: int)
    requires
        0 <= p <= s.len(),
        forall|k: int| 0 <= k < p ==> !key_lt(x.key(), s[k].key()),
        p < s.len() ==> key_lt(x.key(), s[p].key()),
    ensures
        insert_by(s, x) =~= s.insert(p, x),
    decreases s.len(),
{
    if s.len() == 0 {
    } else if key_lt(x.key(), s[0].key()) {
        assert(p == 0);
    } else {
        assert(p >= 1);
        assert(forall|k: int| 0 <= k < p - 1 ==> s.drop_first()[k] == s[k + 1]);
        lemma_insert_by_at(s.drop_first(), x, p - 1);
    }
}

/// Two sequences with pointwise equal keys sort to sequences with pointwise
/// equal keys, whatever the elements themselves are.
pub proof fn lemma_insert_by_keys<A: Keyed, B: Keyed>(s: Seq<A>, t: Seq<B>, x: A, y: B)
    requires
        s.len() == t.len(),
        forall|i: int| 0 <= i < s.len() ==> s[i].key() == t[i].key(),
        x.key() == y.key(),
    ensures
        insert_by(s, x).len() == insert_by(t, y).len(),
        forall|i: int|
            0 <= i < insert_by(s, x).len() ==> insert_by(s, x)[i].key() == insert_by(t, y)[i].key(),
    decreases s.len(),
{
    lemma_insert_by_len(s, x);
    lemma_insert_by_len(t, y);
    if s.len() == 0 {
    } else if key_lt(x.key(), s[0].key()) {
        assert(forall|i: int|
            0 <= i < insert_by(s, x).len() ==> insert_by(s, x)[i].key() == insert_by(t, y)[i].key())
            by {
            assert(insert_by(s, x) == seq![x] + s);
            assert(insert_by(t, y) == seq![y] + t);
        }
    } else {
        assert(forall|i: int| 0 <= i < s.drop_first().len() ==> s.drop_first()[i].key()
            == t.drop_first()[i].key()) by {
            assert(forall|i: int| 0 <= i < s.drop_first().len() ==> s.drop_first()[i] == s[i + 1]
                && t.drop_first()[i] == t[i + 1]);
        }
        lemma_insert_by_keys(s.drop_first(), t.drop_first(), x, y);
        assert(insert_by(s, x) == seq![s[0]] + insert_by(s.drop_first(), x));
        assert(insert_by(t, y) == seq![t[0]] + insert_by(t.drop_first(), y));
        assert(forall|i: int|
            0 <= i < insert_by(s, x).len() ==> insert_by(s, x)[i].key() == insert_by(t, y)[i].key())
            by {
            assert(forall|i: int|
                1 <= i < insert_by(s, x).len() ==> insert_by(s, x)[i] == insert_by(
                    s.drop_first(),
                    x,
                )[i - 1] && insert_by(t, y)[i] == insert_by(t.drop_first(), y)[i - 1]);
        }
    }
}

pub proof fn lemma_sort_by_key_keys<A: Keyed, B: Keyed>(s: Seq<A>, t: Seq<B>)
    requires
        s.len() == t.len(),
        forall|i: int| 0 <= i < s.len() ==> s[i].key() == t[i].key(),
    ensures
        sort_by_key(s).len() == sort_by_key(t).len(),
        forall|i: int|
            0 <= i < sort_by_key(s).len() ==> sort_by_key(s)[i].key() == sort_by_key(t)[i].key(),
    decreases s.len(),
{
    if s.len() != 0 {
        assert(forall|i: int| 0 <= i < s.drop_last().len() ==> s.drop_last()[i].key()
            == t.drop_last()[i].key());
        lemma_sort_by_key_keys(s.drop_last(), t.drop_last());
        lemma_insert_by_keys(sort_by_key(s.drop_last()), sort_by_key(t.drop_last()), s.last(), t.last());
    }
}

} // verus!
