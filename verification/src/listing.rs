//! The listing pipeline's pure tail: filtering entries against today's
//! date and stable-sorting them ascending by date. Equal dates keep their
//! extraction order.

use vstd::prelude::*;
use vstd::multiset::Multiset;
use vstd::seq_lib::group_seq_properties;
use crate::date::{Date, date_le};
use crate::entry::{Entry, EntryModel};

verus! {

/// Entry models in non-decreasing date order.
pub open spec fn sorted_by_date(s: Seq<EntryModel>) -> bool {
    forall|i: int, j: int| 0 <= i <= j < s.len() ==> date_le(s[i].date, s[j].date)
}

/// The models of a sequence of entries.
pub open spec fn entries_view(s: Seq<Entry>) -> Seq<EntryModel> {
    s.map_values(|e: Entry| e@)
}

/// Inserts `d` after every trailing element whose date is past `d`'s has
/// been stepped over: the insertion step of a stable sort by date.
pub open spec fn stable_insert(s: Seq<EntryModel>, d: EntryModel) -> Seq<EntryModel>
    decreases s.len(),
{
    if s.len() == 0 {
        seq![d]
    } else if date_le(s.last().date, d.date) {
        s.push(d)
    } else {
        stable_insert(s.drop_last(), d).push(s.last())
    }
}

/// Stable sort ascending by date.
pub open spec fn stable_sort(s: Seq<EntryModel>) -> Seq<EntryModel>
    decreases s.len(),
{
    if s.len() == 0 {
        Seq::empty()
    } else {
        stable_insert(stable_sort(s.drop_last()), s.last())
    }
}

/// An entry stays in the listing when future entries are included or its
/// date is on or before today.
pub open spec fn spec_keep(m: EntryModel, today: Date, include_future: bool) -> bool {
    include_future || date_le(m.date, today)
}

/// The keep decision as a predicate, one shared term for contracts and
/// loop invariants.
pub open spec fn keep_pred(today: Date, include_future: bool) -> spec_fn(EntryModel) -> bool {
    |m: EntryModel| spec_keep(m, today, include_future)
}

/// What listing returns for the parsed entry models: the kept entries,
/// stable-sorted ascending by date.
pub open spec fn spec_listing(models: Seq<EntryModel>, today: Date, include_future: bool) -> Seq<
    EntryModel,
> {
    stable_sort(models.filter(keep_pred(today, include_future)))
}

/// Inserting at the position the requirements describe is exactly a
/// splice: the elements before stay, then `d`, then the elements after.
pub proof fn lemma_stable_insert_at(s: Seq<EntryModel>, d: EntryModel, j: int)
    requires
        0 <= j <= s.len(),
        forall|k: int| j <= k < s.len() ==> !date_le(#[trigger] s[k].date, d.date),
        j > 0 ==> date_le(s[j - 1].date, d.date),
    ensures
        stable_insert(s, d) =~= s.subrange(0, j) + seq![d] + s.subrange(j, s.len() as int),
    decreases s.len(),
{
    if s.len() == 0 {
    } else if date_le(s.last().date, d.date) {
        assert(j == s.len());
    } else {
        assert(j < s.len());
        lemma_stable_insert_at(s.drop_last(), d, j);
        assert(s.drop_last().subrange(0, j) =~= s.subrange(0, j));
        assert(s.drop_last().subrange(j, s.len() - 1) =~= s.subrange(j, s.len() - 1));
        assert((s.subrange(0, j) + seq![d] + s.subrange(j, s.len() - 1)).push(s.last()) =~= s
            .subrange(0, j) + seq![d] + s.subrange(j, s.len() as int));
    }
}

/// Insertion adds exactly `d` to the contents and one to the length.
pub proof fn lemma_stable_insert_multiset(s: Seq<EntryModel>, d: EntryModel)
    ensures
        stable_insert(s, d).to_multiset() =~= s.to_multiset().insert(d),
        stable_insert(s, d).len() == s.len() + 1,
    decreases s.len(),
{
    broadcast use vstd::seq_lib::group_to_multiset_ensures;

    if s.len() == 0 {
        assert(seq![d] =~= Seq::<EntryModel>::empty().push(d));
        assert(Seq::<EntryModel>::empty().to_multiset() =~= Multiset::<EntryModel>::empty());
    } else if date_le(s.last().date, d.date) {
    } else {
        lemma_stable_insert_multiset(s.drop_last(), d);
        assert(s.drop_last().push(s.last()) =~= s);
        assert(s.drop_last().push(s.last()).to_multiset() =~= s.drop_last().to_multiset().insert(
            s.last(),
        ));
        assert(stable_insert(s.drop_last(), d).push(s.last()).to_multiset() =~= stable_insert(
            s.drop_last(),
            d,
        ).to_multiset().insert(s.last()));
    }
}

/// Insertion keeps the sequence sorted.
pub proof fn lemma_stable_insert_sorted(s: Seq<EntryModel>, d: EntryModel)
    requires
        sorted_by_date(s),
    ensures
        sorted_by_date(stable_insert(s, d)),
    decreases s.len(),
{
    broadcast use vstd::seq_lib::group_to_multiset_ensures;

    crate::date::lemma_date_le_total(s.last().date, d.date);
    if s.len() == 0 {
    } else if date_le(s.last().date, d.date) {
        assert forall|i: int, j: int|
            0 <= i <= j < s.push(d).len() implies date_le(
            s.push(d)[i].date,
            s.push(d)[j].date,
        ) by {
            if j == s.len() && i < j {
                assert(date_le(s[i].date, s.last().date));
                crate::date::lemma_date_le_transitive(s[i].date, s.last().date, d.date);
            }
        }
    } else {
        let t = stable_insert(s.drop_last(), d);
        lemma_stable_insert_sorted(s.drop_last(), d);
        lemma_stable_insert_multiset(s.drop_last(), d);
        // every element of t is an element of s.drop_last() or is d itself,
        // and either way its date is on or before s.last()'s
        assert forall|i: int| 0 <= i < t.len() implies date_le(t[i].date, s.last().date) by {
            assert(t.to_multiset().count(t[i]) > 0);
            if t[i] != d {
                assert(s.drop_last().to_multiset().count(t[i]) > 0);
                assert(s.drop_last().contains(t[i]));
                let w = choose|w: int|
                    0 <= w < s.drop_last().len() && s.drop_last()[w] == t[i];
                assert(date_le(s[w].date, s.last().date));
            } else {
                crate::date::lemma_date_le_total(s.last().date, d.date);
            }
        }
        assert forall|i: int, j: int|
            0 <= i <= j < t.push(s.last()).len() implies date_le(
            t.push(s.last())[i].date,
            t.push(s.last())[j].date,
        ) by {
            if j < t.len() {
            } else if i < j {
                assert(date_le(t[i].date, s.last().date));
            }
        }
    }
}

/// Stable sort returns the same entries: none lost, none invented, none
/// duplicated, and the length unchanged.
pub proof fn lemma_stable_sort_multiset(s: Seq<EntryModel>)
    ensures
        stable_sort(s).to_multiset() =~= s.to_multiset(),
        stable_sort(s).len() == s.len(),
    decreases s.len(),
{
    broadcast use vstd::seq_lib::group_to_multiset_ensures;

    if s.len() > 0 {
        lemma_stable_sort_multiset(s.drop_last());
        lemma_stable_insert_multiset(stable_sort(s.drop_last()), s.last());
        assert(s.drop_last().push(s.last()) =~= s);
        assert(s.drop_last().push(s.last()).to_multiset() =~= s.drop_last().to_multiset().insert(
            s.last(),
        ));
    }
}

/// Stable sort sorts: the result is non-decreasing by date.
pub proof fn lemma_stable_sort_sorted(s: Seq<EntryModel>)
    ensures
        sorted_by_date(stable_sort(s)),
    decreases s.len(),
{
    if s.len() > 0 {
        lemma_stable_sort_sorted(s.drop_last());
        lemma_stable_insert_sorted(stable_sort(s.drop_last()), s.last());
    }
}

/// Filtering distributes over appending one element.
pub proof fn lemma_filter_push(s: Seq<EntryModel>, x: EntryModel, pred: spec_fn(EntryModel) -> bool)
    ensures
        s.push(x).filter(pred) == if pred(x) {
            s.filter(pred).push(x)
        } else {
            s.filter(pred)
        },
{
    reveal(Seq::filter);
    assert(s.push(x).drop_last() =~= s);
    assert(s.push(x).last() == x);
}

/// A filter that keeps every element changes nothing.
pub proof fn lemma_filter_all(s: Seq<EntryModel>, pred: spec_fn(EntryModel) -> bool)
    requires
        forall|i: int| 0 <= i < s.len() ==> pred(#[trigger] s[i]),
    ensures
        s.filter(pred) =~= s,
    decreases s.len(),
{
    reveal(Seq::filter);
    if s.len() > 0 {
        lemma_filter_all(s.drop_last(), pred);
    }
}

/// The listing is sorted non-decreasing by date.
pub proof fn lemma_listing_sorted(models: Seq<EntryModel>, today: Date, include_future: bool)
    ensures
        sorted_by_date(spec_listing(models, today, include_future)),
{
    lemma_stable_sort_sorted(models.filter(keep_pred(today, include_future)));
}

/// The listing holds exactly the kept entries, and with future entries
/// included it keeps one entry per well-formed container.
pub proof fn lemma_listing_contents(models: Seq<EntryModel>, today: Date, include_future: bool)
    ensures
        spec_listing(models, today, include_future).to_multiset() =~= models.filter(
            keep_pred(today, include_future),
        ).to_multiset(),
        include_future ==> spec_listing(models, today, include_future).len() == models.len(),
{
    let pred = keep_pred(today, include_future);
    lemma_stable_sort_multiset(models.filter(pred));
    if include_future {
        lemma_filter_all(models, pred);
    }
}

/// Stable insertion sort of entries, ascending by date.
pub fn sort_entries(entries: Vec<Entry>) -> (r: Vec<Entry>)
    ensures
        entries_view(r@) == stable_sort(entries_view(entries@)),
{
    broadcast use group_seq_properties;

    let ghost orig = entries_view(entries@);
    let mut v = entries;
    let mut out: Vec<Entry> = Vec::new();
    while v.len() > 0
        invariant
            v@.len() <= orig.len(),
            entries_view(v@) =~= orig.subrange(orig.len() - v@.len(), orig.len() as int),
            entries_view(out@) == stable_sort(orig.subrange(0, orig.len() - v@.len())),
        decreases v@.len(),
    {
        let ghost k = orig.len() - v@.len();
        let ghost vs = v@;
        let ghost prev = entries_view(out@);
        let e = v.remove(0);
        proof {
            assert(entries_view(vs)[0] == vs[0]@);
            assert(entries_view(vs)[0] == orig.subrange(k, orig.len() as int)[0]);
            assert(e@ == orig[k]);
            assert(v@ =~= vs.subrange(1, vs.len() as int));
            assert forall|t: int| 0 <= t < v@.len() implies entries_view(v@)[t] == orig.subrange(
                k + 1,
                orig.len() as int,
            )[t] by {
                assert(entries_view(v@)[t] == v@[t]@);
                assert(entries_view(vs)[t + 1] == vs[t + 1]@);
                assert(entries_view(vs)[t + 1] == orig.subrange(k, orig.len() as int)[t + 1]);
            }
            assert(entries_view(v@) =~= orig.subrange(k + 1, orig.len() as int));
        }
        let mut j: usize = out.len();
        while j > 0 && !out[j - 1].date.on_or_before(&e.date)
            invariant
                j <= out@.len(),
                entries_view(out@) == prev,
                forall|t: int| j <= t < out@.len() ==> !date_le(
                    #[trigger] entries_view(out@)[t].date,
                    e@.date,
                ),
            decreases j,
        {
            j = j - 1;
        }
        proof {
            lemma_stable_insert_at(prev, e@, j as int);
        }
        out.insert(j, e);
        proof {
            assert(entries_view(out@) =~= prev.subrange(0, j as int) + seq![e@] + prev.subrange(
                j as int,
                prev.len() as int,
            ));
            assert(orig.subrange(0, k + 1).drop_last() =~= orig.subrange(0, k));
            assert(orig.subrange(0, k + 1).last() == orig[k]);
            assert(entries_view(out@) =~= stable_sort(orig.subrange(0, k + 1)));
        }
    }
    proof {
        assert(orig.subrange(0, orig.len() as int) =~= orig);
    }
    out
}

} // verus!
