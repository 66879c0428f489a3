//! Sums of contributions, whole and split by key.
//!
//! A history is seen here as two lists of equal length: the key of each
//! commit (its day, or its weekday and hour) and what the commit contributes.

use vstd::prelude::*;
use crate::commit::capped;

verus! {

/// The sum of a list of numbers.
pub open spec fn seq_sum(s: Seq<int>) -> int
    decreases s.len(),
{
    if s.len() == 0 {
        0
    } else {
        seq_sum(s.drop_last()) + s.last()
    }
}

/// The sum of the contributions made under one key.
pub open spec fn tally_of(ks: Seq<int>, fs: Seq<int>, k: int) -> int
    decreases ks.len(),
{
    if ks.len() == 0 || fs.len() == 0 {
        0
    } else {
        tally_of(ks.drop_last(), fs.drop_last(), k) + if ks.last() == k {
            fs.last()
        } else {
            0
        }
    }
}

/// The sum of the contributions made under any of the given keys.
pub open spec fn covered_of(ks: Seq<int>, fs: Seq<int>, keys: Seq<int>) -> int
    decreases ks.len(),
{
    if ks.len() == 0 || fs.len() == 0 {
        0
    } else {
        covered_of(ks.drop_last(), fs.drop_last(), keys) + if keys.contains(ks.last()) {
            fs.last()
        } else {
            0
        }
    }
}

/// The tally of each of the given keys.
pub open spec fn tallies(ks: Seq<int>, fs: Seq<int>, keys: Seq<int>) -> Seq<int> {
    Seq::new(keys.len(), |j: int| tally_of(ks, fs, keys[j]))
}

/// Whether no number of the list is negative.
pub open spec fn none_negative(s: Seq<int>) -> bool {
    forall|i: int| 0 <= i < s.len() ==> #[trigger] s[i] >= 0
}

/// A sum of numbers of which none is negative is not negative.
pub(crate) proof fn lemma_sum_nonneg(s: Seq<int>)
    requires
        none_negative(s),
    ensures
        seq_sum(s) >= 0,
    decreases s.len(),
{
    if s.len() > 0 {
        lemma_sum_nonneg(s.drop_last());
    }
}

/// A tally of contributions of which none is negative is not negative.
pub(crate) proof fn lemma_tally_nonneg(ks: Seq<int>, fs: Seq<int>, k: int)
    requires
        none_negative(fs),
    ensures
        tally_of(ks, fs, k) >= 0,
    decreases ks.len(),
{
    if ks.len() > 0 && fs.len() > 0 {
        lemma_tally_nonneg(ks.drop_last(), fs.drop_last(), k);
    }
}

/// Taking one number out of a list lowers its sum by that number.
pub(crate) proof fn lemma_sum_remove(s: Seq<int>, i: int)
    requires
        0 <= i < s.len(),
    ensures
        seq_sum(s) == seq_sum(s.remove(i)) + s[i],
    decreases s.len(),
{
    if i == s.len() - 1 {
        assert(s.remove(i) =~= s.drop_last());
    } else {
        lemma_sum_remove(s.drop_last(), i);
        assert(s.remove(i).drop_last() =~= s.drop_last().remove(i));
        assert(s.remove(i).last() == s.last());
    }
}

/// Capping the addends first does not change a capped sum.
pub(crate) proof fn lemma_capped_add(a: int, b: int)
    requires
        a >= 0,
        b >= 0,
    ensures
        capped(capped(a) + b) == capped(a + b),
        capped(a + capped(b)) == capped(a + b),
        capped(a) >= 0,
{
}

/// The capped sum of capped numbers is the capped sum of the numbers.
pub(crate) proof fn lemma_capped_sum(v: Seq<int>, x: Seq<int>)
    requires
        v.len() == x.len(),
        none_negative(x),
        forall|j: int| 0 <= j < v.len() ==> #[trigger] v[j] == capped(x[j]),
    ensures
        capped(seq_sum(v)) == capped(seq_sum(x)),
        0 <= seq_sum(v) <= seq_sum(x),
    decreases v.len(),
{
    if v.len() > 0 {
        lemma_capped_sum(v.drop_last(), x.drop_last());
        lemma_sum_nonneg(x.drop_last());
        assert(v.last() == capped(x.last()));
        assert(x.last() >= 0);
    }
}

/// No key covers nothing.
proof fn lemma_covered_none(ks: Seq<int>, fs: Seq<int>)
    ensures
        covered_of(ks, fs, Seq::<int>::empty()) == 0,
    decreases ks.len(),
{
    if ks.len() > 0 && fs.len() > 0 {
        lemma_covered_none(ks.drop_last(), fs.drop_last());
    }
}

/// One more key covers what was covered and the tally of that key.
proof fn lemma_covered_push(ks: Seq<int>, fs: Seq<int>, keys: Seq<int>, k: int)
    requires
        !keys.contains(k),
    ensures
        covered_of(ks, fs, keys.push(k)) == covered_of(ks, fs, keys) + tally_of(ks, fs, k),
    decreases ks.len(),
{
    if ks.len() > 0 && fs.len() > 0 {
        lemma_covered_push(ks.drop_last(), fs.drop_last(), keys, k);
        let x = ks.last();
        let more = keys.push(k);
        if keys.contains(x) {
            let i = choose|i: int| 0 <= i < keys.len() && keys[i] == x;
            assert(more[i] == x);
        }
        assert(more[keys.len() as int] == k);
        if more.contains(x) {
            let i = choose|i: int| 0 <= i < more.len() && more[i] == x;
            if i < keys.len() {
                assert(keys[i] == x);
            }
        }
    }
}

/// The tallies of keys that are all different add up to what the keys cover.
proof fn lemma_tallies_sum(ks: Seq<int>, fs: Seq<int>, keys: Seq<int>)
    requires
        keys.no_duplicates(),
    ensures
        seq_sum(tallies(ks, fs, keys)) == covered_of(ks, fs, keys),
    decreases keys.len(),
{
    if keys.len() == 0 {
        assert(keys =~= Seq::<int>::empty());
        lemma_covered_none(ks, fs);
    } else {
        let rest = keys.drop_last();
        let k = keys.last();
        lemma_tallies_sum(ks, fs, rest);
        assert(tallies(ks, fs, keys).drop_last() =~= tallies(ks, fs, rest));
        assert(!rest.contains(k)) by {
            if rest.contains(k) {
                let i = choose|i: int| 0 <= i < rest.len() && rest[i] == k;
                assert(keys[i] == keys[keys.len() - 1]);
            }
        }
        lemma_covered_push(ks, fs, rest, k);
        assert(rest.push(k) =~= keys);
    }
}

/// Keys that leave no commit out cover the plain sum.
proof fn lemma_covered_all(ks: Seq<int>, fs: Seq<int>, keys: Seq<int>)
    requires
        ks.len() == fs.len(),
        forall|i: int| 0 <= i < ks.len() ==> keys.contains(#[trigger] ks[i]),
    ensures
        covered_of(ks, fs, keys) == seq_sum(fs),
    decreases ks.len(),
{
    if ks.len() > 0 {
        assert forall|i: int| 0 <= i < ks.drop_last().len() implies keys.contains(
            #[trigger] ks.drop_last()[i],
        ) by {
            assert(ks.drop_last()[i] == ks[i]);
        }
        lemma_covered_all(ks.drop_last(), fs.drop_last(), keys);
        assert(keys.contains(ks[ks.len() - 1]));
    }
}

/// Split by key and summed over keys that are all different and leave none
/// out, the contributions add up to their plain sum.
pub(crate) proof fn lemma_cells_sum(ks: Seq<int>, fs: Seq<int>, keys: Seq<int>)
    requires
        ks.len() == fs.len(),
        keys.no_duplicates(),
        forall|i: int| 0 <= i < ks.len() ==> keys.contains(#[trigger] ks[i]),
    ensures
        seq_sum(tallies(ks, fs, keys)) == seq_sum(fs),
{
    lemma_tallies_sum(ks, fs, keys);
    lemma_covered_all(ks, fs, keys);
}

/// The capped sum of the capped tallies of all keys is the capped plain sum.
pub(crate) proof fn lemma_capped_cells_sum(
    ks: Seq<int>,
    fs: Seq<int>,
    keys: Seq<int>,
    cells: Seq<int>,
)
    requires
        ks.len() == fs.len(),
        none_negative(fs),
        keys.no_duplicates(),
        forall|i: int| 0 <= i < ks.len() ==> keys.contains(#[trigger] ks[i]),
        cells.len() == keys.len(),
        forall|j: int| 0 <= j < cells.len() ==> #[trigger] cells[j]
            == capped(tally_of(ks, fs, keys[j])),
    ensures
        capped(seq_sum(cells)) == capped(seq_sum(fs)),
        0 <= seq_sum(cells) <= seq_sum(fs),
{
    let exact = tallies(ks, fs, keys);
    assert forall|j: int| 0 <= j < exact.len() implies #[trigger] exact[j] >= 0 by {
        lemma_tally_nonneg(ks, fs, keys[j]);
    }
    lemma_capped_sum(cells, exact);
    lemma_cells_sum(ks, fs, keys);
}

} // verus!
