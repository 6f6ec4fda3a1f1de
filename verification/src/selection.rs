//! Marking new episodes for download.

use vstd::prelude::*;
use crate::store::Entries;
use crate::types::NewEpisode;

verus! {

/// The episode with its mark set to `selection`, or turned over where
/// `selection` is `None`.
pub open spec fn with_selection(ep: NewEpisode, selection: Option<bool>) -> NewEpisode {
    NewEpisode {
        selected: match selection {
            Some(value) => value,
            None => !ep.selected,
        },
        ..ep
    }
}

/// The list after the mark of the entry at each of `indexes` has been
/// changed, one after the other; an index beyond the list changes nothing.
pub open spec fn selections_changed(
    items: Seq<NewEpisode>,
    indexes: Seq<usize>,
    selection: Option<bool>,
) -> Seq<NewEpisode>
    decreases indexes.len(),
{
    if indexes.len() == 0 {
        items
    } else {
        let before = selections_changed(items, indexes.drop_last(), selection);
        let i = indexes.last() as int;
        if i < before.len() {
            before.update(i, with_selection(before[i], selection))
        } else {
            before
        }
    }
}

/// Whether one of `indexes` is a position of a list of `len` entries.
pub open spec fn any_within(indexes: Seq<usize>, len: nat) -> bool {
    exists|k: int| 0 <= k < indexes.len() && #[trigger] indexes[k] < len
}

/// Whether every entry is marked.
pub open spec fn all_selected(items: Seq<NewEpisode>) -> bool {
    forall|i: int| 0 <= i < items.len() ==> (#[trigger] items[i]).selected
}

/// The list with every mark set to `value`.
pub open spec fn all_set(items: Seq<NewEpisode>, value: bool) -> Seq<NewEpisode> {
    Seq::new(items.len(), |i: int| with_selection(items[i], Some(value)))
}

/// What marking all does: it clears every mark if all entries are marked,
/// and marks every entry otherwise.
pub open spec fn all_toggled(items: Seq<NewEpisode>) -> Seq<NewEpisode> {
    all_set(items, !all_selected(items))
}

/// Marking all in a list with an unmarked entry marks every entry; marking
/// all once more clears every mark.
pub proof fn lemma_all_toggled_twice(items: Seq<NewEpisode>)
    requires
        !all_selected(items),
    ensures
        all_selected(all_toggled(items)),
        all_toggled(items) == all_set(items, true),
        all_toggled(all_toggled(items)) == all_set(items, false),
        forall|i: int| 0 <= i < items.len() ==> !(#[trigger] all_toggled(all_toggled(items))[i]).selected,
{
    let once = all_toggled(items);
    assert(all_selected(once));
    assert(all_toggled(once) =~= all_set(items, false));
}

/// Marking all in a list whose entries are all marked clears every mark.
pub proof fn lemma_all_toggled_when_all_selected(items: Seq<NewEpisode>)
    requires
        all_selected(items),
    ensures
        all_toggled(items) == all_set(items, false),
        forall|i: int| 0 <= i < items.len() ==> !(#[trigger] all_toggled(items)[i]).selected,
{
}

/// Marking changes nothing but the marks.
pub proof fn lemma_selections_changed_len(
    items: Seq<NewEpisode>,
    indexes: Seq<usize>,
    selection: Option<bool>,
)
    ensures
        selections_changed(items, indexes, selection).len() == items.len(),
        forall|i: int|
            0 <= i < items.len() ==> (#[trigger] selections_changed(
                items,
                indexes,
                selection,
            )[i]).id == items[i].id,
    decreases indexes.len(),
{
    if indexes.len() > 0 {
        lemma_selections_changed_len(items, indexes.drop_last(), selection);
    }
}

/// Indexes beyond the list change nothing.
pub proof fn lemma_unchanged_outside(
    items: Seq<NewEpisode>,
    indexes: Seq<usize>,
    selection: Option<bool>,
)
    requires
        !any_within(indexes, items.len()),
    ensures
        selections_changed(items, indexes, selection) == items,
    decreases indexes.len(),
{
    if indexes.len() > 0 {
        let init = indexes.drop_last();
        assert(!any_within(init, items.len())) by {
            if any_within(init, items.len()) {
                let w = choose|w: int| 0 <= w < init.len() && #[trigger] init[w] < items.len();
                assert(indexes[w] < items.len());
            }
        }
        lemma_unchanged_outside(items, init, selection);
        assert(!(indexes[indexes.len() - 1] < items.len()));
    }
}

/// Changing one mark changes the entry at that position, if there is one.
pub proof fn lemma_single_change(items: Seq<NewEpisode>, index: usize, selection: Option<bool>)
    ensures
        selections_changed(items, seq![index], selection) == if index < items.len() {
            items.update(index as int, with_selection(items[index as int], selection))
        } else {
            items
        },
{
    let single = seq![index];
    assert(single.drop_last() =~= Seq::<usize>::empty());
    assert(single.last() == index);
    assert(selections_changed(items, single.drop_last(), selection) == items);
}

fn mark(ep: NewEpisode) -> (r: NewEpisode)
    ensures
        r == with_selection(ep, Some(true)),
{
    let mut ep = ep;
    ep.selected = true;
    ep
}

fn unmark(ep: NewEpisode) -> (r: NewEpisode)
    ensures
        r == with_selection(ep, Some(false)),
{
    let mut ep = ep;
    ep.selected = false;
    ep
}

fn turn_over(ep: NewEpisode) -> (r: NewEpisode)
    ensures
        r == with_selection(ep, None),
{
    let mut ep = ep;
    ep.selected = !ep.selected;
    ep
}

/// Changes the mark of the entry at `index`, if there is one.
pub fn change_selection(entries: &mut Entries<NewEpisode>, index: usize, selection: Option<bool>) -> (r:
    bool)
    requires
        old(entries).wf(),
    ensures
        final(entries).wf(),
        final(entries).order() == old(entries).order(),
        r == (index < old(entries).items().len()),
        final(entries).items() == selections_changed(old(entries).items(), seq![index], selection),
{
    let r = match selection {
        Some(true) => entries.modify(index, mark),
        Some(false) => entries.modify(index, unmark),
        None => entries.modify(index, turn_over),
    };
    proof {
        let list = seq![index];
        assert(list.drop_last() =~= Seq::<usize>::empty());
        let before = old(entries).items();
        assert(selections_changed(before, list.drop_last(), selection) == before);
        if r {
            assert(entries.items() =~= old(entries).items().update(
                index as int,
                with_selection(old(entries).items()[index as int], selection),
            ));
        } else {
            assert(entries.items() == old(entries).items());
        }
    }
    r
}

/// Changes the mark of the entry at each of `indexes`. Returns whether an
/// entry was changed.
pub fn change_selections(
    entries: &mut Entries<NewEpisode>,
    indexes: &Vec<usize>,
    selection: Option<bool>,
) -> (r: bool)
    requires
        old(entries).wf(),
    ensures
        final(entries).wf(),
        final(entries).order() == old(entries).order(),
        r == any_within(indexes@, old(entries).items().len()),
        final(entries).items() == selections_changed(old(entries).items(), indexes@, selection),
{
    let mut changed = false;
    let mut k: usize = 0;
    while k < indexes.len()
        invariant
            k <= indexes@.len(),
            entries.wf(),
            entries.order() == old(entries).order(),
            entries.items().len() == old(entries).items().len(),
            changed == any_within(indexes@.subrange(0, k as int), old(entries).items().len()),
            entries.items() == selections_changed(
                old(entries).items(),
                indexes@.subrange(0, k as int),
                selection,
            ),
        decreases indexes@.len() - k,
    {
        let ghost before = entries.items();
        let ghost upto = indexes@.subrange(0, k + 1);
        let index: usize = indexes[k];
        let one = change_selection(entries, index, selection);
        proof {
            assert(upto.drop_last() =~= indexes@.subrange(0, k as int));
            assert(upto.last() == index);
            let single = seq![index];
            assert(single.drop_last() =~= Seq::<usize>::empty());
            assert(selections_changed(before, single.drop_last(), selection) == before);
            assert(entries.items() == selections_changed(old(entries).items(), upto, selection));
            lemma_selections_changed_len(old(entries).items(), upto, selection);
            let len = old(entries).items().len();
            if any_within(upto, len) {
                let w = choose|w: int| 0 <= w < upto.len() && #[trigger] upto[w] < len;
                if w < k {
                    assert(indexes@.subrange(0, k as int)[w] == upto[w]);
                }
            }
            if changed {
                let w = choose|w: int|
                    0 <= w < k && #[trigger] indexes@.subrange(0, k as int)[w] < len;
                assert(upto[w] < len);
            }
            if one {
                assert(upto[k as int] < len);
            }
        }
        changed = changed || one;
        k = k + 1;
    }
    proof {
        assert(indexes@.subrange(0, k as int) =~= indexes@);
    }
    changed
}

/// Marks every entry, or clears every mark if all entries are marked.
/// Returns whether there is an entry.
pub fn toggle_all(entries: &mut Entries<NewEpisode>) -> (r: bool)
    requires
        old(entries).wf(),
    ensures
        final(entries).wf(),
        final(entries).order() == old(entries).order(),
        r == (old(entries).items().len() > 0),
        final(entries).items() == all_toggled(old(entries).items()),
{
    let n: usize = entries.len();
    let mut all = true;
    let mut i: usize = 0;
    while i < n
        invariant
            i <= n,
            n == entries.items().len(),
            entries.wf(),
            *entries == *old(entries),
            all == all_selected(entries.items().subrange(0, i as int)),
        decreases n - i,
    {
        let ghost upto = entries.items().subrange(0, i + 1);
        let marked = entries.get_ref(i).unwrap().selected;
        proof {
            if all && marked {
                assert forall|j: int| 0 <= j < upto.len() implies (#[trigger] upto[j]).selected by {
                    if j < i {
                        assert(entries.items().subrange(0, i as int)[j].selected);
                    }
                }
            } else if !all {
                let w = choose|w: int|
                    0 <= w < i && !(#[trigger] entries.items().subrange(0, i as int)[w]).selected;
                assert(!upto[w].selected);
            } else {
                assert(!upto[i as int].selected);
            }
        }
        all = all && marked;
        i = i + 1;
    }
    proof {
        assert(entries.items().subrange(0, n as int) =~= entries.items());
    }
    let value = !all;
    let mut i: usize = 0;
    while i < n
        invariant
            i <= n,
            n == old(entries).items().len(),
            entries.wf(),
            entries.order() == old(entries).order(),
            entries.items().len() == n,
            forall|j: int|
                0 <= j < i ==> #[trigger] entries.items()[j] == with_selection(
                    old(entries).items()[j],
                    Some(value),
                ),
            forall|j: int| i <= j < n ==> #[trigger] entries.items()[j] == old(entries).items()[j],
        decreases n - i,
    {
        let ghost before = entries.items();
        let _ = change_selection(entries, i, Some(value));
        proof {
            lemma_single_change(before, i, Some(value));
        }
        i = i + 1;
    }
    assert(entries.items() =~= all_toggled(old(entries).items()));
    n > 0
}

} // verus!
