//! The data that a store guards: entries found by identifier, in a fixed
//! order.

use std::collections::HashMap;
use vstd::prelude::*;
use crate::types::Menuable;

verus! {

broadcast use vstd::std_specs::hash::group_hash_axioms;

/// Why a store refused an operation.
#[derive(Clone, Copy, Debug, PartialEq, Eq, Structural)]
pub enum StoreError {
    /// The position is not one that can be replaced.
    InvalidIndex,
    /// The new entry does not carry the identifier of the entry it replaces.
    IdMismatch,
}

impl StoreError {
    /// The error in words.
    pub fn message(&self) -> (r: &'static str)
        ensures
            r@ == match self {
                StoreError::InvalidIndex => "Invalid index"@,
                StoreError::IdMismatch => "Identifier does not match"@,
            },
    {
        match self {
            StoreError::InvalidIndex => "Invalid index",
            StoreError::IdMismatch => "Identifier does not match",
        }
    }
}

/// Whether an entry earlier in `s` carries the identifier of the entry at
/// position `i`.
pub open spec fn seen_before<T: Menuable>(s: Seq<T>, i: int) -> bool {
    exists|j: int| 0 <= j < i && (#[trigger] s[j]).ident() == s[i].ident()
}

/// `s` without the entries whose identifier an earlier entry carries.
pub open spec fn first_of_each<T: Menuable>(s: Seq<T>) -> Seq<T>
    decreases s.len(),
{
    if s.len() == 0 {
        Seq::empty()
    } else {
        let rest = first_of_each(s.drop_last());
        if seen_before(s, s.len() - 1) {
            rest
        } else {
            rest.push(s.last())
        }
    }
}

/// Whether all entries of `s` carry different identifiers.
pub open spec fn distinct_ids<T: Menuable>(s: Seq<T>) -> bool {
    forall|i: int, j: int|
        0 <= i < j < s.len() ==> (#[trigger] s[i]).ident() != (#[trigger] s[j]).ident()
}

/// A list whose identifiers are all different is kept as it is.
pub proof fn lemma_first_of_each_distinct<T: Menuable>(s: Seq<T>)
    requires
        distinct_ids(s),
    ensures
        first_of_each(s) == s,
    decreases s.len(),
{
    if s.len() > 0 {
        let init = s.drop_last();
        assert(distinct_ids(init)) by {
            assert forall|i: int, j: int| 0 <= i < j < init.len() implies (#[trigger] init[i]).ident()
                != (#[trigger] init[j]).ident() by {
                assert(init[i] == s[i]);
                assert(init[j] == s[j]);
            }
        }
        lemma_first_of_each_distinct(init);
        assert(!seen_before(s, s.len() - 1));
        assert(init.push(s.last()) =~= s);
    }
}

/// Entries keyed by identifier, together with the order in which they are
/// listed.
pub struct Entries<T: Menuable> {
    map: HashMap<i64, T>,
    order: Vec<i64>,
}

impl<T: Menuable> Entries<T> {
    /// The identifiers, in list order.
    pub closed spec fn order(&self) -> Seq<i64> {
        self.order@
    }

    /// The entries by identifier.
    pub closed spec fn table(&self) -> Map<i64, T> {
        self.map@
    }

    /// No identifier is listed twice, the listed identifiers are exactly
    /// those that have an entry, and each entry carries the identifier it is
    /// filed under.
    pub closed spec fn wf(&self) -> bool {
        &&& self.order@.no_duplicates()
        &&& forall|k: i64| self.map@.contains_key(k) <==> self.order@.contains(k)
        &&& forall|k: i64| self.map@.contains_key(k) ==> (#[trigger] self.map@[k]).ident() == k
    }

    /// The entries in list order.
    pub open spec fn items(&self) -> Seq<T> {
        Seq::new(self.order().len(), |i: int| self.table()[self.order()[i]])
    }

    /// A store without entries.
    pub fn empty() -> (r: Self)
        ensures
            r.wf(),
            r.order() == Seq::<i64>::empty(),
            r.items() == Seq::<T>::empty(),
    {
        let r = Entries { map: HashMap::new(), order: Vec::new() };
        assert(r.items() =~= Seq::<T>::empty());
        r
    }

    /// The number of entries.
    pub fn len(&self) -> (r: usize)
        ensures
            r == self.items().len(),
    {
        self.order.len()
    }

    /// Where the entry with the identifier `id` is listed.
    pub open spec fn position(&self, id: i64) -> Option<int> {
        if self.order().contains(id) {
            Some(self.order().index_of(id))
        } else {
            None
        }
    }

    /// Whether `id` has an entry.
    pub fn contains(&self, id: i64) -> (r: bool)
        requires
            self.wf(),
        ensures
            r == self.order().contains(id),
    {
        self.map.contains_key(&id)
    }

    /// Whether there is no entry.
    pub fn is_empty(&self) -> (r: bool)
        ensures
            r == (self.items().len() == 0),
    {
        self.order.len() == 0
    }

    /// The entry at a position.
    pub fn get_ref(&self, index: usize) -> (r: Option<&T>)
        requires
            self.wf(),
        ensures
            match r {
                Some(t) => index < self.items().len() && *t == self.items()[index as int],
                None => index >= self.items().len(),
            },
    {
        if index < self.order.len() {
            let id: i64 = self.order[index];
            assert(self.order@.contains(id));
            self.map.get(&id)
        } else {
            None
        }
    }

    /// The entry with the identifier `id`.
    pub fn get_ref_by_id(&self, id: i64) -> (r: Option<&T>)
        requires
            self.wf(),
        ensures
            match r {
                Some(t) => self.position(id) is Some && *t == self.items()[self.position(id)->0]
                    && t.ident() == id,
                None => self.position(id) is None,
            },
    {
        let r = self.map.get(&id);
        proof {
            if r is Some {
                assert(self.order@.contains(id));
                let i = self.order@.index_of(id);
                assert(self.order@[i] == id);
            }
        }
        r
    }

    /// The position of the entry with the identifier `id`, found by going
    /// through the list from its start.
    pub fn id_to_index(&self, id: i64) -> (r: Option<usize>)
        requires
            self.wf(),
        ensures
            match r {
                Some(i) => self.position(id) == Some(i as int) && i < self.items().len()
                    && self.items()[i as int].ident() == id,
                None => self.position(id) is None,
            },
    {
        let mut i: usize = 0;
        while i < self.order.len()
            invariant
                i <= self.order@.len(),
                forall|j: int| 0 <= j < i ==> self.order@[j] != id,
                self.wf(),
            decreases self.order@.len() - i,
        {
            if self.order[i] == id {
                proof {
                    assert(self.order@.contains(id));
                    let k = self.order@.index_of(id);
                    assert(self.order@[k] == id);
                    assert(k == i);
                    assert(self.map@.contains_key(id));
                }
                return Some(i);
            }
            i = i + 1;
        }
        proof {
            if self.order@.contains(id) {
                let k = self.order@.index_of(id);
                assert(self.order@[k] == id);
            }
        }
        None
    }

    /// Builds a store from a list of entries, in the order of the list. Of
    /// entries that share an identifier, the first one is kept.
    pub fn from_vec(data: Vec<T>) -> (r: Self)
        ensures
            r.wf(),
            r.items() == first_of_each(data@),
            distinct_ids(data@) ==> r.items() == data@,
    {
        let ghost src = data@;
        let mut data = data;
        let mut rev: Vec<T> = Vec::new();
        while data.len() > 0
            invariant
                data@.len() + rev@.len() == src.len(),
                forall|i: int| 0 <= i < data@.len() ==> data@[i] == src[i],
                forall|i: int| 0 <= i < rev@.len() ==> rev@[i] == src[src.len() - 1 - i],
            decreases data@.len(),
        {
            let x = data.pop().unwrap();
            rev.push(x);
        }
        let mut map: HashMap<i64, T> = HashMap::new();
        let mut order: Vec<i64> = Vec::new();
        let ghost mut kept: Seq<T> = Seq::empty();
        while rev.len() > 0
            invariant
                rev@.len() <= src.len(),
                forall|i: int| 0 <= i < rev@.len() ==> rev@[i] == src[src.len() - 1 - i],
                kept == first_of_each(src.subrange(0, src.len() - rev@.len())),
                kept.len() == order@.len(),
                forall|i: int| 0 <= i < kept.len() ==> (#[trigger] kept[i]).ident() == order@[i],
                forall|i: int|
                    0 <= i < kept.len() ==> map@.contains_key(#[trigger] order@[i]) && map@[order@[i]]
                        == kept[i],
                order@.no_duplicates(),
                forall|k: i64| map@.contains_key(k) <==> order@.contains(k),
                forall|k: i64|
                    map@.contains_key(k) <==> exists|j: int|
                        0 <= j < src.len() - rev@.len() && (#[trigger] src[j]).ident() == k,
            decreases rev@.len(),
        {
            let ghost k = src.len() - rev@.len();
            let ghost prefix = src.subrange(0, k + 1);
            let x = rev.pop().unwrap();
            assert(x == src[k]);
            let id: i64 = x.get_id();
            proof {
                assert(prefix.drop_last() =~= src.subrange(0, k));
                assert(prefix.last() == x);
                assert(seen_before(prefix, k) <==> map@.contains_key(id)) by {
                    if seen_before(prefix, k) {
                        let j = choose|j: int| 0 <= j < k && (#[trigger] prefix[j]).ident() == prefix[k].ident();
                        assert(src[j].ident() == id);
                    }
                    if map@.contains_key(id) {
                        let j = choose|j: int| 0 <= j < k && (#[trigger] src[j]).ident() == id;
                        assert(prefix[j].ident() == prefix[k].ident());
                    }
                }
            }
            if !map.contains_key(&id) {
                let ghost old_order = order@;
                let ghost old_map = map@;
                map.insert(id, x);
                order.push(id);
                proof {
                    kept = kept.push(x);
                    assert(!old_order.contains(id));
                    assert forall|i: int| 0 <= i < kept.len() implies map@.contains_key(
                        #[trigger] order@[i],
                    ) && map@[order@[i]] == kept[i] by {
                        if i < old_order.len() {
                            assert(order@[i] == old_order[i]);
                            assert(old_order.contains(old_order[i]));
                        }
                    }
                    assert forall|q: i64| map@.contains_key(q) <==> order@.contains(q) by {
                        if order@.contains(q) {
                            let i = choose|i: int| 0 <= i < order@.len() && order@[i] == q;
                            if i < old_order.len() {
                                assert(old_order[i] == q);
                                assert(old_order.contains(q));
                            }
                        }
                        if map@.contains_key(q) && q != id {
                            assert(old_order.contains(q));
                            let i = choose|i: int| 0 <= i < old_order.len() && old_order[i] == q;
                            assert(order@[i] == q);
                        }
                        if q == id {
                            assert(order@[old_order.len() as int] == id);
                        }
                    }
                    assert forall|q: i64| map@.contains_key(q) <==> exists|j: int|
                        0 <= j < k + 1 && (#[trigger] src[j]).ident() == q by {
                        if map@.contains_key(q) {
                            if q == id {
                                assert(src[k].ident() == q);
                            } else {
                                assert(old_map.contains_key(q));
                                let j = choose|j: int| 0 <= j < k && (#[trigger] src[j]).ident() == q;
                                assert(0 <= j < k + 1 && src[j].ident() == q);
                            }
                        }
                        if exists|j: int| 0 <= j < k + 1 && (#[trigger] src[j]).ident() == q {
                            let j = choose|j: int| 0 <= j < k + 1 && (#[trigger] src[j]).ident() == q;
                            if j < k {
                                assert(old_map.contains_key(q));
                            }
                        }
                    }
                }
            } else {
                proof {
                    assert forall|q: i64| map@.contains_key(q) <==> exists|j: int|
                        0 <= j < k + 1 && (#[trigger] src[j]).ident() == q by {
                        if map@.contains_key(q) {
                            let j = choose|j: int| 0 <= j < k && (#[trigger] src[j]).ident() == q;
                            assert(0 <= j < k + 1 && src[j].ident() == q);
                        }
                        if exists|j: int| 0 <= j < k + 1 && (#[trigger] src[j]).ident() == q {
                            let j = choose|j: int| 0 <= j < k + 1 && (#[trigger] src[j]).ident() == q;
                            if j == k {
                                assert(q == id);
                            }
                        }
                    }
                }
            }
            assert(kept == first_of_each(prefix));
        }
        proof {
            assert(src.subrange(0, src.len() as int) =~= src);
            assert forall|q: i64| map@.contains_key(q) implies (#[trigger] map@[q]).ident() == q by {
                assert(order@.contains(q));
                let i = choose|i: int| 0 <= i < order@.len() && order@[i] == q;
                assert(map@[order@[i]] == kept[i]);
            }
        }
        let r = Entries { map, order };
        proof {
            assert(r.items() =~= kept);
            if distinct_ids(src) {
                lemma_first_of_each_distinct(src);
            }
        }
        r
    }

    /// Puts `t` in the place of the entry at `index`. The first position
    /// cannot be replaced, and `t` must carry the identifier of the entry
    /// that it replaces.
    pub fn replace(&mut self, index: usize, t: T) -> (r: Result<(), StoreError>)
        requires
            old(self).wf(),
        ensures
            final(self).wf(),
            final(self).order() == old(self).order(),
            match r {
                Ok(_) => 1 <= index < old(self).items().len() && t.ident() == old(self).order()[index as int]
                    && final(self).items() == old(self).items().update(index as int, t),
                Err(StoreError::InvalidIndex) => !(1 <= index < old(self).items().len())
                    && *final(self) == *old(self),
                Err(StoreError::IdMismatch) => 1 <= index < old(self).items().len() && t.ident()
                    != old(self).order()[index as int] && *final(self) == *old(self),
            },
    {
        if index > 0 && index < self.order.len() {
            let id: i64 = self.order[index];
            if t.get_id() == id {
                assert(self.order@.contains(id));
                self.map.insert(id, t);
                proof {
                    assert(self.map@.dom() =~= old(self).map@.dom());
                    assert(self.items() =~= old(self).items().update(index as int, t));
                }
                Ok(())
            } else {
                Err(StoreError::IdMismatch)
            }
        } else {
            Err(StoreError::InvalidIndex)
        }
    }
}

/// The entry at a position carries the identifier listed at that position.
pub proof fn lemma_item_carries_listed_id<T: Menuable>(e: Entries<T>, n: int)
    requires
        e.wf(),
        0 <= n < e.items().len(),
    ensures
        e.items()[n].ident() == e.order()[n],
        e.position(e.order()[n]) == Some(n),
{
    assert(e.order().contains(e.order()[n]));
    assert(e.table().contains_key(e.order()[n]));
}

/// Looking up the position of an identifier that is present and then the
/// entry at that position gives an entry with that identifier; looking up an
/// entry's position by its own identifier gives the position back.
pub proof fn lemma_position_and_item_agree<T: Menuable>(e: Entries<T>, id: i64, n: int)
    requires
        e.wf(),
    ensures
        e.order().contains(id) ==> e.position(id) is Some && 0 <= e.position(id)->0
            < e.items().len() && e.items()[e.position(id)->0].ident() == id,
        0 <= n < e.items().len() ==> e.position(e.items()[n].ident()) == Some(n),
        !e.order().contains(id) ==> e.position(id) is None,
{
    if e.order().contains(id) {
        let i = e.order().index_of(id);
        assert(e.order()[i] == id);
        lemma_item_carries_listed_id(e, i);
    }
    if 0 <= n < e.items().len() {
        lemma_item_carries_listed_id(e, n);
    }
}

/// The entries of a store carry pairwise different identifiers.
pub proof fn lemma_items_distinct<T: Menuable>(e: Entries<T>)
    requires
        e.wf(),
    ensures
        distinct_ids(e.items()),
{
    assert forall|i: int, j: int| 0 <= i < j < e.items().len() implies (#[trigger] e.items()[i]).ident()
        != (#[trigger] e.items()[j]).ident() by {
        lemma_item_carries_listed_id(e, i);
        lemma_item_carries_listed_id(e, j);
    }
}

impl<T: Menuable> Entries<T> {
    /// The results of `f` on the entries at the positions from `start` up
    /// to, but not including, `end`, as far as the list reaches.
    pub fn project_range<B, F: Fn(&T) -> B>(&self, start: usize, end: usize, f: &F) -> (r: Vec<B>)
        requires
            self.wf(),
            forall|t: T| call_requires(*f, (&t,)),
        ensures
            r@.len() == range_len(start as int, end as int, self.items().len() as int),
            forall|i: int|
                0 <= i < r@.len() ==> call_ensures(
                    *f,
                    (&self.items()[start + i],),
                    #[trigger] r@[i],
                ),
    {
        let n: usize = self.order.len();
        let stop: usize = if end < n {
            end
        } else {
            n
        };
        let mut out: Vec<B> = Vec::new();
        let mut i: usize = start;
        while i < stop
            invariant
                self.wf(),
                stop <= self.order@.len(),
                start <= i,
                start <= stop ==> i <= stop,
                start <= stop ==> out@.len() == i - start,
                start > stop ==> out@.len() == 0,
                forall|t: T| call_requires(*f, (&t,)),
                forall|k: int|
                    0 <= k < out@.len() ==> call_ensures(
                        *f,
                        (&self.items()[start + k],),
                        #[trigger] out@[k],
                    ),
            decreases stop - i,
        {
            let id: i64 = self.order[i];
            assert(self.order@.contains(id));
            let t = self.map.get(&id).unwrap();
            assert(*t == self.items()[i as int]);
            let b = f(t);
            out.push(b);
            i = i + 1;
        }
        out
    }

    /// The results of `f` on all entries, in list order.
    pub fn project<B, F: Fn(&T) -> B>(&self, f: &F) -> (r: Vec<B>)
        requires
            self.wf(),
            forall|t: T| call_requires(*f, (&t,)),
        ensures
            r@.len() == self.items().len(),
            forall|i: int|
                0 <= i < r@.len() ==> call_ensures(*f, (&self.items()[i],), #[trigger] r@[i]),
    {
        self.project_range(0, self.order.len(), f)
    }
}

/// How many positions of a list of `len` entries lie in `start..end`.
pub open spec fn range_len(start: int, end: int, len: int) -> int {
    let stop = if end < len {
        end
    } else {
        len
    };
    if start < stop {
        stop - start
    } else {
        0
    }
}

impl<T: Menuable> Entries<T> {
    /// Puts in the place of the entry at `index` what `f` makes of it; `f`
    /// must keep the identifier. Returns whether there is such an entry.
    pub fn modify<F: FnOnce(T) -> T>(&mut self, index: usize, f: F) -> (r: bool)
        requires
            old(self).wf(),
            forall|t: T| call_requires(f, (t,)),
            forall|t: T, u: T| call_ensures(f, (t,), u) ==> u.ident() == t.ident(),
        ensures
            final(self).wf(),
            final(self).order() == old(self).order(),
            r == (index < old(self).items().len()),
            !r ==> *final(self) == *old(self),
            r ==> final(self).items() == old(self).items().update(
                index as int,
                final(self).items()[index as int],
            ) && call_ensures(
                f,
                (old(self).items()[index as int],),
                final(self).items()[index as int],
            ),
    {
        if index < self.order.len() {
            let id: i64 = self.order[index];
            assert(self.order@.contains(id));
            let t = self.map.remove(&id).unwrap();
            let u = f(t);
            self.map.insert(id, u);
            proof {
                assert(self.map@.dom() =~= old(self).map@.dom());
                assert(self.items() =~= old(self).items().update(index as int, u));
            }
            true
        } else {
            false
        }
    }
}

/// Replacing the entries at two different positions, each by an entry with
/// the identifier of the one it replaces, gives the same list in either
/// order; the list keeps its length, and every position keeps its
/// identifier.
pub proof fn lemma_disjoint_replaces_commute<T: Menuable>(items: Seq<T>, i: int, a: T, j: int, b: T)
    requires
        0 <= i < items.len(),
        0 <= j < items.len(),
        i != j,
        a.ident() == items[i].ident(),
        b.ident() == items[j].ident(),
    ensures
        items.update(i, a).update(j, b) == items.update(j, b).update(i, a),
        items.update(i, a).update(j, b).len() == items.len(),
        forall|k: int|
            0 <= k < items.len() ==> (#[trigger] items.update(i, a).update(j, b)[k]).ident()
                == items[k].ident(),
{
    assert(items.update(i, a).update(j, b) =~= items.update(j, b).update(i, a));
}

} // verus!
