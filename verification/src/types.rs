use std::path::PathBuf;
use std::sync::Arc;
use vstd::prelude::*;
use vstd::rwlock::ReadHandle;
use vstd::rwlock::RwLock;
use vstd::rwlock::RwLockPredicate;
use vstd::rwlock::WriteHandle;
use vstd::string::StrSliceExecFns;
use vstd::string::StringExecFns;
use crate::EPISODE_DURATION_LENGTH;
use crate::EPISODE_PUBDATE_LENGTH;
use crate::PODCAST_UNPLAYED_TOTALS_LENGTH;
use crate::store::Entries;
use crate::store::StoreError;
use crate::store::distinct_ids;
use crate::store::first_of_each;
use crate::store::lemma_item_carries_listed_id;
use crate::text::char_substring;
use crate::text::decimal;
use crate::text::justify_right;
use crate::text::push_decimal;
use crate::text::push_two_digits;
use crate::text::right_justified;
use crate::text::substring_of;
use crate::text::truncate_to;
use crate::text::two_digits;
use crate::ui::UiMsg;

verus! {

/// One end of a range of character positions.
#[derive(Clone, Copy, Debug)]
pub enum Limit {
    Included(usize),
    Excluded(usize),
    Unbounded,
}

/// Where a range with the lower limit `from` starts.
pub open spec fn range_start(from: Limit) -> int {
    match from {
        Limit::Included(b) => b as int,
        Limit::Excluded(b) => b as int,
        Limit::Unbounded => 0,
    }
}

/// The position just past a range with the upper limit `to`, in a text of
/// `len` characters.
pub open spec fn range_end(to: Limit, len: int) -> int {
    match to {
        Limit::Included(b) => b + 1,
        Limit::Excluded(b) => b as int,
        Limit::Unbounded => len,
    }
}

/// The characters of `s` that a range selects; a range that ends before it
/// starts selects nothing.
pub open spec fn slice_of(s: Seq<char>, from: Limit, to: Limit) -> Seq<char> {
    let start = range_start(from);
    let end = range_end(to, s.len() as int);
    substring_of(
        s,
        start,
        if end >= start {
            end - start
        } else {
            0
        },
    )
}

/// Substrings by character position, which never cut a character in two.
pub trait StringUtils {
    /// At most `len` characters, starting with the character at `start`.
    fn substring(&self, start: usize, len: usize) -> &str;

    /// The characters between two limits.
    fn slice(&self, from: Limit, to: Limit) -> &str;
}

fn slice_chars<'a>(s: &'a str, from: Limit, to: Limit) -> (r: &'a str)
    ensures
        r@ == slice_of(s@, from, to),
{
    let start: usize = match from {
        Limit::Included(b) => b,
        Limit::Excluded(b) => b,
        Limit::Unbounded => 0,
    };
    let n: usize = s.unicode_len();
    let len: usize = match to {
        Limit::Included(b) => if b < start {
            0
        } else {
            // b + 1 - start without overflow.
            let d: usize = b - start;
            if d < n {
                d + 1
            } else {
                n
            }
        },
        Limit::Excluded(b) => if b < start {
            0
        } else {
            b - start
        },
        Limit::Unbounded => if n < start {
            0
        } else {
            n - start
        },
    };
    let r = char_substring(s, start, len);
    assert(r@ =~= slice_of(s@, from, to));
    r
}

impl StringUtils for str {
    fn substring(&self, start: usize, len: usize) -> (r: &str)
        ensures
            r@ == substring_of(self@, start as int, len as int),
    {
        char_substring(self, start, len)
    }

    fn slice(&self, from: Limit, to: Limit) -> (r: &str)
        ensures
            r@ == slice_of(self@, from, to),
    {
        slice_chars(self, from, to)
    }
}

impl StringUtils for String {
    fn substring(&self, start: usize, len: usize) -> (r: &str)
        ensures
            r@ == substring_of(self@, start as int, len as int),
    {
        char_substring(self.as_str(), start, len)
    }

    fn slice(&self, from: Limit, to: Limit) -> (r: &str)
        ensures
            r@ == slice_of(self@, from, to),
    {
        slice_chars(self.as_str(), from, to)
    }
}

/// What a list entry must offer to be kept in a store and shown in a menu.
pub trait Menuable {
    /// The entry's identifier.
    spec fn ident(&self) -> i64;

    /// Whether the entry counts as played.
    spec fn played(&self) -> bool;

    /// Whether `out` is a title that the entry may show in `length` columns.
    spec fn titled(&self, length: usize, out: Seq<char>) -> bool;

    /// The entry's identifier.
    fn get_id(&self) -> (r: i64)
        ensures
            r == self.ident(),
    ;

    /// The entry's title for a line of `length` columns.
    fn get_title(&self, length: usize) -> (r: String)
        ensures
            r@.len() <= length,
            self.titled(length, r@),
    ;

    /// Whether the entry counts as played.
    fn is_played(&self) -> (r: bool)
        ensures
            r == self.played(),
    ;
}

/// What the lock of a store admits: well-formed entries that list the
/// identifiers `ids`, in that order.
pub ghost struct Listed {
    pub ids: Seq<i64>,
}

impl<T: Menuable> RwLockPredicate<Entries<T>> for Listed {
    open spec fn inv(self, v: Entries<T>) -> bool {
        v.wf() && v.order() == self.ids
    }
}

/// The identifiers of `items`, in order.
pub open spec fn ids_of<T: Menuable>(items: Seq<T>) -> Seq<i64> {
    Seq::new(items.len(), |i: int| items[i].ident())
}

/// A handle on a store that several owners share. The store lists the same
/// identifiers in the same order for as long as it lives; what stands under
/// an identifier can be replaced. Every operation takes the store's lock
/// for as long as it runs, and finds the store well formed.
pub struct LockVec<T: Menuable + Clone> {
    data: Arc<RwLock<Entries<T>, Listed>>,
}

impl<T: Menuable + Clone> LockVec<T> {
    /// The identifiers that the store lists, in order.
    pub closed spec fn ids(&self) -> Seq<i64> {
        self.data.pred().ids
    }

    /// Whether `e` is a state that the store can be in: well formed, with
    /// the store's identifiers in the store's order.
    pub open spec fn holds(&self, e: Entries<T>) -> bool {
        e.wf() && e.order() == self.ids()
    }

    /// Creates a store that holds `data`, in that order. Of entries that
    /// share an identifier, the first one is kept.
    pub fn new(data: Vec<T>) -> (r: LockVec<T>)
        ensures
            r.ids() == ids_of(first_of_each(data@)),
            distinct_ids(data@) ==> r.ids() == ids_of(data@),
    {
        let entries = Entries::from_vec(data);
        let ghost listed = Listed { ids: entries.order() };
        proof {
            lemma_order_is_ids(entries);
        }
        LockVec { data: Arc::new(RwLock::new(entries, Ghost(listed))) }
    }

    /// Takes the store for reading. The caller releases the handle.
    pub(crate) fn read(&self) -> (handle: ReadHandle<'_, Entries<T>, Listed>)
        ensures
            self.holds(handle@),
    {
        self.data.acquire_read()
    }

    /// Takes the store for writing. The caller hands entries that the
    /// store can hold back through the handle.
    pub(crate) fn write(&self) -> (r: (Entries<T>, WriteHandle<'_, Entries<T>, Listed>))
        ensures
            self.holds(r.0),
            forall|e: Entries<T>| self.holds(e) ==> r.1.rwlock().inv(e),
    {
        self.data.acquire_write()
    }

    /// Runs `f` with exclusive access to the entries. `f` is handed the
    /// entries and hands them back, changed or not, beside its result; the
    /// store is released when `f` has returned.
    ///
    /// The store's lock knows no poisoned state and is not released when a
    /// handle on it is dropped. A closure that panics or does not return
    /// therefore leaves the store taken for good: every later operation on
    /// the store, through any handle, waits forever and receives no error.
    /// Hand in closures that return.
    pub fn borrow<R, F: FnOnce(Entries<T>) -> (Entries<T>, R)>(&self, f: F) -> (r: R)
        requires
            forall|e: Entries<T>| self.holds(e) ==> call_requires(f, (e,)),
            forall|e: Entries<T>, out: (Entries<T>, R)|
                self.holds(e) && call_ensures(f, (e,), out) ==> self.holds(out.0),
        ensures
            exists|before: Entries<T>, after: Entries<T>|
                self.holds(before) && self.holds(after) && call_ensures(f, (before,), (after, r)),
    {
        let (entries, handle) = self.write();
        assert(self.holds(entries));
        let (entries_after, r) = f(entries);
        handle.release_write(entries_after);
        assert(self.holds(entries) && self.holds(entries_after) && call_ensures(
            f,
            (entries,),
            (entries_after, r),
        ));
        r
    }
}

impl<T: Menuable + Clone> LockVec<T> {
    /// The number of entries.
    pub fn len(&self) -> (r: usize)
        ensures
            r == self.ids().len(),
    {
        let handle = self.read();
        let r = handle.borrow().len();
        handle.release_read();
        r
    }

    /// Whether the store has no entries.
    pub fn is_empty(&self) -> (r: bool)
        ensures
            r == (self.ids().len() == 0),
    {
        let handle = self.read();
        let r = handle.borrow().is_empty();
        handle.release_read();
        r
    }

    /// Puts `t` in the place of the entry at `index`. The first position
    /// cannot be replaced, and `t` must carry the identifier of the entry
    /// that it replaces; the store is unchanged where it refuses.
    pub fn replace(&self, index: usize, t: T) -> (r: Result<(), StoreError>)
        ensures
            match r {
                Ok(_) => 1 <= index < self.ids().len() && t.ident() == self.ids()[index as int],
                Err(StoreError::InvalidIndex) => !(1 <= index < self.ids().len()),
                Err(StoreError::IdMismatch) => 1 <= index < self.ids().len() && t.ident()
                    != self.ids()[index as int],
            },
            exists|before: Entries<T>, after: Entries<T>|
                self.holds(before) && self.holds(after) && replaced(before, after, index, t, r),
    {
        let (mut entries, handle) = self.write();
        let ghost before = entries;
        let r = entries.replace(index, t);
        assert(self.holds(before) && self.holds(entries) && replaced(before, entries, index, t, r));
        handle.release_write(entries);
        r
    }

    /// A copy of the entry at `index`, if there is one.
    pub fn get(&self, index: usize) -> (r: Option<T>)
        ensures
            r is Some <==> index < self.ids().len(),
            exists|e: Entries<T>|
                self.holds(e) && match r {
                    Some(t) => index < e.items().len() && cloned(e.items()[index as int], t),
                    None => index >= e.items().len(),
                },
    {
        let handle = self.read();
        let r = match handle.borrow().get_ref(index) {
            Some(t) => Some(t.clone()),
            None => None,
        };
        assert(self.holds(handle@) && match r {
            Some(t) => index < handle@.items().len() && cloned(handle@.items()[index as int], t),
            None => index >= handle@.items().len(),
        });
        handle.release_read();
        r
    }

    /// A copy of the entry with the identifier `id`, if there is one.
    pub fn get_by_id(&self, id: i64) -> (r: Option<T>)
        ensures
            r is Some <==> self.ids().contains(id),
            exists|e: Entries<T>|
                self.holds(e) && match r {
                    Some(t) => e.position(id) is Some && cloned(e.items()[e.position(id)->0], t),
                    None => e.position(id) is None,
                },
    {
        let handle = self.read();
        let r = match handle.borrow().get_ref_by_id(id) {
            Some(t) => Some(t.clone()),
            None => None,
        };
        assert(self.holds(handle@) && match r {
            Some(t) => handle@.position(id) is Some && cloned(
                handle@.items()[handle@.position(id)->0],
                t,
            ),
            None => handle@.position(id) is None,
        });
        handle.release_read();
        r
    }

    /// Whether `r` is the position at which the store lists `id`, or
    /// nothing where it does not list `id`.
    pub open spec fn listed_at(&self, id: i64, r: Option<usize>) -> bool {
        match r {
            Some(i) => i < self.ids().len() && self.ids()[i as int] == id,
            None => !self.ids().contains(id),
        }
    }

    /// The position of the entry with the identifier `id`, if there is one.
    pub fn position_of(&self, id: i64) -> (r: Option<usize>)
        ensures
            self.listed_at(id, r),
            exists|e: Entries<T>|
                self.holds(e) && match r {
                    Some(i) => e.position(id) == Some(i as int),
                    None => e.position(id) is None,
                },
    {
        let handle = self.read();
        let r = handle.borrow().id_to_index(id);
        assert(self.holds(handle@) && match r {
            Some(i) => handle@.position(id) == Some(i as int),
            None => handle@.position(id) is None,
        });
        handle.release_read();
        r
    }

    /// The result of `f` on the entry at `index`, if there is one. The
    /// entry is not copied.
    pub fn map_single_by_index<B, F: FnOnce(&T) -> B>(&self, index: usize, f: F) -> (r: Option<B>)
        requires
            forall|t: T| call_requires(f, (&t,)),
        ensures
            r is Some <==> index < self.ids().len(),
            exists|e: Entries<T>|
                self.holds(e) && match r {
                    Some(b) => index < e.items().len() && call_ensures(
                        f,
                        (&e.items()[index as int],),
                        b,
                    ),
                    None => index >= e.items().len(),
                },
    {
        let handle = self.read();
        let r = match handle.borrow().get_ref(index) {
            Some(t) => Some(f(t)),
            None => None,
        };
        assert(self.holds(handle@) && match r {
            Some(b) => index < handle@.items().len() && call_ensures(
                f,
                (&handle@.items()[index as int],),
                b,
            ),
            None => index >= handle@.items().len(),
        });
        handle.release_read();
        r
    }

    /// The result of `f` on the entry with the identifier `id`, if there is
    /// one.
    pub fn map_single<B, F: FnOnce(&T) -> B>(&self, id: i64, f: F) -> (r: Option<B>)
        requires
            forall|t: T| call_requires(f, (&t,)),
        ensures
            r is Some <==> self.ids().contains(id),
            exists|e: Entries<T>|
                self.holds(e) && match r {
                    Some(b) => e.position(id) is Some && call_ensures(
                        f,
                        (&e.items()[e.position(id)->0],),
                        b,
                    ),
                    None => e.position(id) is None,
                },
    {
        let handle = self.read();
        let r = match handle.borrow().get_ref_by_id(id) {
            Some(t) => Some(f(t)),
            None => None,
        };
        assert(self.holds(handle@) && match r {
            Some(b) => handle@.position(id) is Some && call_ensures(
                f,
                (&handle@.items()[handle@.position(id)->0],),
                b,
            ),
            None => handle@.position(id) is None,
        });
        handle.release_read();
        r
    }

    /// The results of `f` on the entries at the positions from `start` up
    /// to, but not including, `end`, as far as the list reaches.
    pub fn map_by_range<B, F: Fn(&T) -> B>(&self, start: usize, end: usize, f: F) -> (r: Vec<B>)
        requires
            forall|t: T| call_requires(f, (&t,)),
        ensures
            r@.len() == crate::store::range_len(start as int, end as int, self.ids().len() as int),
            exists|e: Entries<T>| self.holds(e) && projected(e, start, end, f, r@),
    {
        let handle = self.read();
        let r = handle.borrow().project_range(start, end, &f);
        assert(self.holds(handle@) && projected(handle@, start, end, f, r@));
        handle.release_read();
        r
    }

    /// The results of `f` on all entries, in list order.
    pub fn map<B, F: Fn(&T) -> B>(&self, f: F) -> (r: Vec<B>)
        requires
            forall|t: T| call_requires(f, (&t,)),
        ensures
            r@.len() == self.ids().len(),
            exists|e: Entries<T>| self.holds(e) && projected_all(e, f, r@),
    {
        let handle = self.read();
        let r = handle.borrow().project(&f);
        assert(self.holds(handle@) && projected_all(handle@, f, r@));
        handle.release_read();
        r
    }
}

/// The order of a store lists the identifiers of its entries.
pub proof fn lemma_order_is_ids<T: Menuable>(e: Entries<T>)
    requires
        e.wf(),
    ensures
        e.order() == ids_of(e.items()),
{
    assert forall|i: int| 0 <= i < e.order().len() implies e.order()[i] == ids_of(e.items())[i] by {
        lemma_item_carries_listed_id(e, i);
    }
    assert(e.order() =~= ids_of(e.items()));
}

/// What `replace` does: it changes `before` into `after` and returns `r`.
pub open spec fn replaced<T: Menuable>(
    before: Entries<T>,
    after: Entries<T>,
    index: usize,
    t: T,
    r: Result<(), StoreError>,
) -> bool {
    &&& after.order() == before.order()
    &&& match r {
        Ok(_) => 1 <= index < before.items().len() && t.ident() == before.order()[index as int]
            && after.items() == before.items().update(index as int, t),
        Err(StoreError::InvalidIndex) => !(1 <= index < before.items().len()) && after == before,
        Err(StoreError::IdMismatch) => 1 <= index < before.items().len() && t.ident()
            != before.order()[index as int] && after == before,
    }
}

/// Two replaces at different positions, one after the other in either
/// order, each with an entry that carries the identifier of the entry it
/// replaces, both succeed. The store keeps its order, its length and its
/// identifiers; the two positions hold the new entries, and every other
/// position holds what it held.
pub proof fn lemma_two_replaces_in_turn<T: Menuable>(
    start: Entries<T>,
    between: Entries<T>,
    end: Entries<T>,
    i: usize,
    a: T,
    j: usize,
    b: T,
    first: Result<(), StoreError>,
    second: Result<(), StoreError>,
)
    requires
        start.wf(),
        1 <= i < start.items().len(),
        1 <= j < start.items().len(),
        i != j,
        a.ident() == start.items()[i as int].ident(),
        b.ident() == start.items()[j as int].ident(),
        replaced(start, between, i, a, first),
        replaced(between, end, j, b, second),
    ensures
        first is Ok,
        second is Ok,
        end.order() == start.order(),
        end.items().len() == start.items().len(),
        end.items() == start.items().update(i as int, a).update(j as int, b),
        end.items() == start.items().update(j as int, b).update(i as int, a),
        end.items()[i as int] == a,
        end.items()[j as int] == b,
        forall|k: int|
            0 <= k < start.items().len() && k != i && k != j ==> end.items()[k] == start.items()[k],
        ids_of(end.items()) == ids_of(start.items()),
{
    lemma_item_carries_listed_id(start, i as int);
    lemma_item_carries_listed_id(start, j as int);
    crate::store::lemma_disjoint_replaces_commute(start.items(), i as int, a, j as int, b);
    assert(ids_of(end.items()) =~= ids_of(start.items()));
}

/// Whether `out` holds the results of `f` on all entries of `e`, in list
/// order.
pub open spec fn projected_all<T: Menuable, B, F: Fn(&T) -> B>(e: Entries<T>, f: F, out: Seq<B>) -> bool {
    &&& out.len() == e.items().len()
    &&& forall|i: int| 0 <= i < out.len() ==> call_ensures(f, (&e.items()[i],), #[trigger] out[i])
}

/// Whether `out` holds the results of `f` on the entries of `e` at the
/// positions `start..end`, as far as the list reaches.
pub open spec fn projected<T: Menuable, B, F: Fn(&T) -> B>(
    e: Entries<T>,
    start: usize,
    end: usize,
    f: F,
    out: Seq<B>,
) -> bool {
    &&& out.len() == crate::store::range_len(start as int, end as int, e.items().len() as int)
    &&& forall|i: int|
        0 <= i < out.len() ==> call_ensures(f, (&e.items()[start + i],), #[trigger] out[i])
}

impl<T: Menuable + Clone> Clone for LockVec<T> {
    /// A second handle on the same store.
    fn clone(&self) -> (r: Self)
        ensures
            r == *self,
    {
        LockVec { data: self.data.clone() }
    }
}

/// `a / b` rounded towards zero.
pub open spec fn quotient(a: int, b: int) -> int
    recommends
        b > 0,
{
    if a >= 0 {
        a / b
    } else {
        -((-a) / b)
    }
}

/// A duration in seconds as hours, minutes and seconds, each in two digits
/// at least; the text for an unknown duration.
pub open spec fn duration_text(duration: Option<i64>) -> Seq<char> {
    match duration {
        Some(d) => {
            let hours = quotient(d as int, 3600);
            let rest = d - hours * 3600;
            let minutes = quotient(rest, 60);
            let seconds = rest - minutes * 60;
            two_digits(hours) + seq![':'] + two_digits(minutes) + seq![':'] + two_digits(seconds)
        },
        None => seq!['-', '-', ':', '-', '-', ':', '-', '-'],
    }
}

/// Formats a duration in seconds as `HH:MM:SS`.
pub fn format_duration(duration: Option<i64>) -> (r: String)
    ensures
        r@ == duration_text(duration),
{
    match duration {
        Some(d) => {
            let hours: i64 = d / 3600;
            let rest: i64 = d - hours * 3600;
            let minutes: i64 = rest / 60;
            let seconds: i64 = rest - minutes * 60;
            let mut out = String::new();
            push_two_digits(&mut out, hours);
            out.append(":");
            push_two_digits(&mut out, minutes);
            out.append(":");
            push_two_digits(&mut out, seconds);
            proof {
                reveal_strlit(":");
                assert(out@ =~= duration_text(duration));
            }
            out
        },
        None => {
            let out = String::from_str("--:--:--");
            proof {
                reveal_strlit("--:--:--");
                assert(out@ =~= duration_text(duration));
            }
            out
        },
    }
}

/// The calendar date, in UTC, of the moment `secs` seconds after the start
/// of 1970, written as year, month and day; `None` for a moment that the
/// calendar in use cannot express.
pub uninterp spec fn calendar_date(secs: i64) -> Option<Seq<char>>;

/// Calls `chrono::DateTime::from_timestamp(secs, 0)` and, where that gives
/// a moment, `format("%F")` on it and `to_string` on what that returns.
/// Nothing is verified of this function. Its contract claims only that the
/// outcome depends on `secs` alone: it is `calendar_date(secs)`. What the
/// text looks like, and for which `secs` there is none, is left open.
#[verifier::external_body]
fn format_date(secs: i64) -> (r: Option<String>)
    ensures
        r is Some <==> calendar_date(secs) is Some,
        r is Some ==> r->0@ == calendar_date(secs)->0,
{
    match chrono::DateTime::from_timestamp(secs, 0) {
        Some(date) => Some(date.format("%F").to_string()),
        None => None,
    }
}

/// What an episode shows before any cut: its title, after a mark if the
/// episode has been downloaded.
pub open spec fn episode_label(title: Seq<char>, downloaded: bool) -> Seq<char> {
    if downloaded {
        seq!['[', 'D', ']', ' '] + title
    } else {
        title
    }
}

/// The duration in square brackets, after the date in round brackets if
/// there is one.
pub open spec fn episode_meta(date: Option<Seq<char>>, duration: Option<i64>) -> Seq<char> {
    match date {
        Some(d) => seq!['('] + d + seq![')', ' ', '['] + duration_text(duration) + seq![']'],
        None => seq!['['] + duration_text(duration) + seq![']'],
    }
}

/// An episode's line of at most `length` characters. A line wider than
/// `EPISODE_PUBDATE_LENGTH` ends in date and duration, one wider than
/// `EPISODE_DURATION_LENGTH` in the duration, as far as they fit; a narrower
/// one holds the label alone.
pub open spec fn episode_title(
    title: Seq<char>,
    downloaded: bool,
    date: Option<Seq<char>>,
    duration: Option<i64>,
    length: int,
) -> Seq<char>
    recommends
        0 <= length,
{
    let label = episode_label(title, downloaded);
    if length > EPISODE_PUBDATE_LENGTH {
        right_justified(label, episode_meta(date, duration), length)
    } else if length > EPISODE_DURATION_LENGTH {
        right_justified(label, episode_meta(None, duration), length)
    } else {
        truncate_to(label, length)
    }
}

/// Lays out an episode's line; `date` is the publication date as text.
pub fn format_episode_title(
    title: &str,
    downloaded: bool,
    date: Option<&str>,
    duration: Option<i64>,
    length: usize,
) -> (r: String)
    ensures
        r@ == episode_title(
            title@,
            downloaded,
            match date {
                Some(d) => Some(d@),
                None => None,
            },
            duration,
            length as int,
        ),
        r@.len() <= length,
{
    let ghost date_text: Option<Seq<char>> = match date {
        Some(d) => Some(d@),
        None => None,
    };
    let mut label = String::new();
    if downloaded {
        label.append("[D] ");
    }
    label.append(title);
    proof {
        reveal_strlit("[D] ");
        assert(label@ =~= episode_label(title@, downloaded));
        crate::text::lemma_right_justified_len(
            label@,
            episode_meta(date_text, duration),
            length as int,
        );
        crate::text::lemma_right_justified_len(label@, episode_meta(None, duration), length as int);
    }
    if length > EPISODE_DURATION_LENGTH {
        let dur = format_duration(duration);
        let mut meta = String::new();
        if length > EPISODE_PUBDATE_LENGTH {
            if let Some(d) = date {
                meta.append("(");
                meta.append(d);
                meta.append(") ");
            }
        }
        meta.append("[");
        meta.append(dur.as_str());
        meta.append("]");
        proof {
            reveal_strlit("(");
            reveal_strlit(") ");
            reveal_strlit("[");
            reveal_strlit("]");
            if length > EPISODE_PUBDATE_LENGTH {
                assert(meta@ =~= episode_meta(date_text, duration));
            } else {
                assert(meta@ =~= episode_meta(None, duration));
            }
        }
        justify_right(label.as_str(), meta.as_str(), length)
    } else {
        let head = crate::text::char_substring(label.as_str(), 0, length);
        let r = String::from_str(head);
        assert(r@ =~= truncate_to(label@, length as int));
        r
    }
}

/// `std::path::PathBuf`, carried through as it is.
#[verifier::external_type_specification]
#[verifier::external_body]
pub struct ExPathBuf(PathBuf);

/// `PathBuf::clone`: the copy is the same path.
pub assume_specification[ <PathBuf as Clone>::clone ](p: &PathBuf) -> (r: PathBuf)
    ensures
        r == *p,
;

/// An episode of a podcast. `pubdate` counts seconds from the start of
/// 1970 in UTC; `path` is present once the episode has been downloaded.
#[derive(Debug)]
pub struct Episode {
    pub id: i64,
    pub pod_id: i64,
    pub title: String,
    pub url: String,
    pub description: String,
    pub pubdate: Option<i64>,
    pub duration: Option<i64>,
    pub path: Option<PathBuf>,
    pub played: bool,
}

impl Clone for Episode {
    fn clone(&self) -> (r: Self)
        ensures
            r == *self,
    {
        Episode {
            id: self.id,
            pod_id: self.pod_id,
            title: self.title.clone(),
            url: self.url.clone(),
            description: self.description.clone(),
            pubdate: self.pubdate,
            duration: self.duration,
            path: match &self.path {
                Some(p) => Some(p.clone()),
                None => None,
            },
            played: self.played,
        }
    }
}

impl Episode {
    /// The publication date as text, where there is one that the calendar
    /// can express.
    pub open spec fn date_text(&self) -> Option<Seq<char>> {
        match self.pubdate {
            Some(secs) => calendar_date(secs),
            None => None,
        }
    }

    /// Formats the duration in seconds as `HH:MM:SS`.
    pub fn format_duration(&self) -> (r: String)
        ensures
            r@ == duration_text(self.duration),
    {
        format_duration(self.duration)
    }
}

impl Menuable for Episode {
    open spec fn ident(&self) -> i64 {
        self.id
    }

    open spec fn played(&self) -> bool {
        self.played
    }

    open spec fn titled(&self, length: usize, out: Seq<char>) -> bool {
        out == episode_title(
            self.title@,
            self.path is Some,
            self.date_text(),
            self.duration,
            length as int,
        )
    }

    fn get_id(&self) -> (r: i64) {
        self.id
    }

    /// The episode's title, cut to leave room for duration and date where
    /// the line is wide enough for them.
    fn get_title(&self, length: usize) -> (r: String) {
        let date: Option<String> = match self.pubdate {
            Some(secs) => format_date(secs),
            None => None,
        };
        match &date {
            Some(d) => format_episode_title(
                self.title.as_str(),
                self.path.is_some(),
                Some(d.as_str()),
                self.duration,
                length,
            ),
            None => format_episode_title(
                self.title.as_str(),
                self.path.is_some(),
                None,
                self.duration,
                length,
            ),
        }
    }

    fn is_played(&self) -> (r: bool) {
        self.played
    }
}

/// How many entries of `s` are `true`.
pub open spec fn count_true(s: Seq<bool>) -> nat
    decreases s.len(),
{
    if s.len() == 0 {
        0
    } else {
        count_true(s.drop_last()) + if s.last() {
            1nat
        } else {
            0nat
        }
    }
}

/// Counts the entries of `flags` that are `true`.
pub fn count_flags(flags: &Vec<bool>) -> (r: usize)
    ensures
        r == count_true(flags@),
        r <= flags@.len(),
{
    let mut n: usize = 0;
    let mut i: usize = 0;
    while i < flags.len()
        invariant
            i <= flags@.len(),
            n == count_true(flags@.subrange(0, i as int)),
            n <= i,
        decreases flags@.len() - i,
    {
        proof {
            assert(flags@.subrange(0, i + 1).drop_last() =~= flags@.subrange(0, i as int));
        }
        if flags[i] {
            n = n + 1;
        }
        i = i + 1;
    }
    proof {
        assert(flags@.subrange(0, i as int) =~= flags@);
    }
    n
}

/// Which of `episodes` count as played, in order.
pub open spec fn played_flags(episodes: Seq<Episode>) -> Seq<bool> {
    Seq::new(episodes.len(), |i: int| episodes[i].played)
}

/// The counts of played and of all episodes, as they stand behind a
/// podcast's title.
pub open spec fn podcast_meta(played: nat, total: nat) -> Seq<char> {
    seq!['('] + decimal(played) + seq!['/'] + decimal(total) + seq![')']
}

/// A podcast's line of at most `length` characters. A line wider than
/// `PODCAST_UNPLAYED_TOTALS_LENGTH` ends in the counts, if they fit; a
/// narrower one holds the title alone.
pub open spec fn podcast_title(title: Seq<char>, played: nat, total: nat, length: int) -> Seq<char>
    recommends
        0 <= length,
{
    if length > PODCAST_UNPLAYED_TOTALS_LENGTH {
        right_justified(title, podcast_meta(played, total), length)
    } else {
        truncate_to(title, length)
    }
}

/// Lays out a podcast's line from its title and the counts of its played
/// and of all its episodes.
pub fn format_podcast_title(title: &str, played: usize, total: usize, length: usize) -> (r: String)
    ensures
        r@ == podcast_title(title@, played as nat, total as nat, length as int),
        r@.len() <= length,
{
    proof {
        crate::text::lemma_right_justified_len(
            title@,
            podcast_meta(played as nat, total as nat),
            length as int,
        );
    }
    if length > PODCAST_UNPLAYED_TOTALS_LENGTH {
        let mut meta = String::new();
        meta.append("(");
        push_decimal(&mut meta, played as u64);
        meta.append("/");
        push_decimal(&mut meta, total as u64);
        meta.append(")");
        proof {
            reveal_strlit("(");
            reveal_strlit("/");
            reveal_strlit(")");
            assert(meta@ =~= podcast_meta(played as nat, total as nat));
        }
        justify_right(title, meta.as_str(), length)
    } else {
        let head = crate::text::char_substring(title, 0, length);
        let r = String::from_str(head);
        assert(r@ =~= truncate_to(title@, length as int));
        r
    }
}

/// A podcast feed with its episodes. `last_checked` counts seconds from the
/// start of 1970 in UTC. `any_unplayed` is kept by whoever updates the feed.
pub struct Podcast {
    pub id: i64,
    pub title: String,
    pub url: String,
    pub description: Option<String>,
    pub author: Option<String>,
    pub explicit: Option<bool>,
    pub last_checked: i64,
    pub episodes: LockVec<Episode>,
    pub any_unplayed: bool,
}

fn clone_text(text: &Option<String>) -> (r: Option<String>)
    ensures
        r == *text,
{
    match text {
        Some(t) => Some(t.clone()),
        None => None,
    }
}

impl Clone for Podcast {
    /// A copy of the podcast's data that shares the store of its episodes.
    fn clone(&self) -> (r: Self)
        ensures
            r == *self,
    {
        Podcast {
            id: self.id,
            title: self.title.clone(),
            url: self.url.clone(),
            description: clone_text(&self.description),
            author: clone_text(&self.author),
            explicit: self.explicit,
            last_checked: self.last_checked,
            episodes: self.episodes.clone(),
            any_unplayed: self.any_unplayed,
        }
    }
}

fn episode_played(ep: &Episode) -> (b: bool)
    ensures
        b == ep.played,
{
    ep.is_played()
}

impl Menuable for Podcast {
    open spec fn ident(&self) -> i64 {
        self.id
    }

    open spec fn played(&self) -> bool {
        !self.any_unplayed
    }

    open spec fn titled(&self, length: usize, out: Seq<char>) -> bool {
        exists|e: Entries<Episode>|
            #[trigger] self.episodes.holds(e) && out == podcast_title(
                self.title@,
                count_true(played_flags(e.items())),
                e.items().len(),
                length as int,
            )
    }

    fn get_id(&self) -> (r: i64) {
        self.id
    }

    /// The podcast's title, followed in a wide line by how many of its
    /// episodes are played and how many it has, as the store of its episodes
    /// stands when the title is asked for.
    fn get_title(&self, length: usize) -> (r: String) {
        let flags: Vec<bool> = self.episodes.map(episode_played);
        let played: usize = count_flags(&flags);
        let total: usize = flags.len();
        let r = format_podcast_title(self.title.as_str(), played, total, length);
        proof {
            let e = choose|e: Entries<Episode>|
                self.episodes.holds(e) && projected_all(e, episode_played, flags@);
            assert(flags@ =~= played_flags(e.items()));
            assert(self.episodes.holds(e) && r@ == podcast_title(
                self.title@,
                count_true(played_flags(e.items())),
                e.items().len(),
                length as int,
            ));
        }
        r
    }

    fn is_played(&self) -> (r: bool) {
        !self.any_unplayed
    }
}

/// An episode that a sync has found, in a list from which the user picks
/// the episodes to download.
#[derive(Debug)]
pub struct NewEpisode {
    pub id: i64,
    pub pod_id: i64,
    pub title: String,
    pub pod_title: String,
    pub selected: bool,
}

impl Clone for NewEpisode {
    fn clone(&self) -> (r: Self)
        ensures
            r == *self,
    {
        NewEpisode {
            id: self.id,
            pod_id: self.pod_id,
            title: self.title.clone(),
            pod_title: self.pod_title.clone(),
            selected: self.selected,
        }
    }
}

/// The line of a new episode: a box that is ticked if the episode is
/// selected, the episode's title, and the podcast's title in brackets, cut
/// to `length` characters.
pub open spec fn new_episode_title(
    title: Seq<char>,
    pod_title: Seq<char>,
    selected: bool,
    length: int,
) -> Seq<char> {
    truncate_to(
        seq![' ', '['] + seq![
            if selected {
                'x'
            } else {
                ' '
            },
        ] + seq![']', ' '] + title + seq![' ', '('] + pod_title + seq![')'],
        length,
    )
}

impl Menuable for NewEpisode {
    open spec fn ident(&self) -> i64 {
        self.id
    }

    open spec fn played(&self) -> bool {
        true
    }

    open spec fn titled(&self, length: usize, out: Seq<char>) -> bool {
        out == new_episode_title(self.title@, self.pod_title@, self.selected, length as int)
    }

    fn get_id(&self) -> (r: i64) {
        self.id
    }

    fn get_title(&self, length: usize) -> (r: String) {
        let mut full = String::new();
        if self.selected {
            full.append(" [x] ");
        } else {
            full.append(" [ ] ");
        }
        full.append(self.title.as_str());
        full.append(" (");
        full.append(self.pod_title.as_str());
        full.append(")");
        let head = crate::text::char_substring(full.as_str(), 0, length);
        let r = String::from_str(head);
        proof {
            reveal_strlit(" [x] ");
            reveal_strlit(" [ ] ");
            reveal_strlit(" (");
            reveal_strlit(")");
            assert(full@ =~= seq![' ', '['] + seq![
                if self.selected {
                    'x'
                } else {
                    ' '
                },
            ] + seq![']', ' '] + self.title@ + seq![' ', '('] + self.pod_title@ + seq![')']);
            assert(r@ =~= new_episode_title(
                self.title@,
                self.pod_title@,
                self.selected,
                length as int,
            ));
        }
        r
    }

    /// An episode that has just been found shows as played.
    fn is_played(&self) -> (r: bool) {
        true
    }
}

/// Whether `r` is the episode at `index` of `eps`, or nothing where there
/// is no such episode.
pub open spec fn picked(eps: Entries<Episode>, index: usize, r: Option<Episode>) -> bool {
    match r {
        Some(ep) => index < eps.items().len() && ep == eps.items()[index as int],
        None => index >= eps.items().len(),
    }
}

impl LockVec<Podcast> {
    /// A copy of the podcast at `index`, if there is one. The copy shares
    /// the store of its episodes with the podcast.
    pub fn clone_podcast(&self, index: usize) -> (r: Option<Podcast>)
        ensures
            r is Some <==> index < self.ids().len(),
            r matches Some(pod) ==> pod.id == self.ids()[index as int],
            exists|e: Entries<Podcast>|
                self.holds(e) && match r {
                    Some(pod) => index < e.items().len() && pod == e.items()[index as int],
                    None => index >= e.items().len(),
                },
    {
        let handle = self.read();
        let r = match handle.borrow().get_ref(index) {
            Some(pod) => Some(pod.clone()),
            None => None,
        };
        proof {
            if index < handle@.items().len() {
                lemma_item_carries_listed_id(handle@, index as int);
            }
        }
        assert(self.holds(handle@) && match r {
            Some(pod) => index < handle@.items().len() && pod == handle@.items()[index as int],
            None => index >= handle@.items().len(),
        });
        handle.release_read();
        r
    }

    /// A copy of the episode at `ep_index` of the podcast at `pod_index`,
    /// if there are both.
    pub fn clone_episode(&self, pod_index: usize, ep_index: usize) -> (r: Option<Episode>)
        ensures
            exists|pods: Entries<Podcast>|
                self.holds(pods) && if pod_index < pods.items().len() {
                    exists|eps: Entries<Episode>|
                        pods.items()[pod_index as int].episodes.holds(eps) && picked(
                            eps,
                            ep_index,
                            r,
                        )
                } else {
                    r is None
                },
    {
        let handle = self.read();
        let list: Option<LockVec<Episode>> = match handle.borrow().get_ref(pod_index) {
            Some(pod) => Some(pod.episodes.clone()),
            None => None,
        };
        let ghost pods = handle@;
        handle.release_read();
        match list {
            Some(episodes) => {
                let inner = episodes.read();
                let r = match inner.borrow().get_ref(ep_index) {
                    Some(ep) => Some(ep.clone()),
                    None => None,
                };
                assert(pods.items()[pod_index as int].episodes.holds(inner@) && picked(
                    inner@,
                    ep_index,
                    r,
                ));
                assert(self.holds(pods) && pod_index < pods.items().len());
                inner.release_read();
                r
            },
            None => {
                assert(self.holds(pods) && pod_index >= pods.items().len());
                None
            },
        }
    }

    /// The position of the podcast with the identifier `id`, if there is
    /// one.
    pub fn id_to_index(&self, id: i64) -> (r: Option<usize>)
        ensures
            self.listed_at(id, r),
            exists|e: Entries<Podcast>|
                self.holds(e) && match r {
                    Some(i) => e.position(id) == Some(i as int),
                    None => e.position(id) is None,
                },
    {
        self.position_of(id)
    }
}

impl LockVec<Episode> {
    /// A copy of the episode at `index`, if there is one.
    pub fn clone_episode(&self, index: usize) -> (r: Option<Episode>)
        ensures
            r is Some <==> index < self.ids().len(),
            r matches Some(ep) ==> ep.id == self.ids()[index as int],
            exists|e: Entries<Episode>|
                self.holds(e) && match r {
                    Some(ep) => index < e.items().len() && ep == e.items()[index as int],
                    None => index >= e.items().len(),
                },
    {
        let handle = self.read();
        let r = match handle.borrow().get_ref(index) {
            Some(ep) => Some(ep.clone()),
            None => None,
        };
        proof {
            if index < handle@.items().len() {
                lemma_item_carries_listed_id(handle@, index as int);
            }
        }
        assert(self.holds(handle@) && match r {
            Some(ep) => index < handle@.items().len() && ep == handle@.items()[index as int],
            None => index >= handle@.items().len(),
        });
        handle.release_read();
        r
    }

    /// The position of the episode with the identifier `id`, if there is
    /// one.
    pub fn id_to_index(&self, id: i64) -> (r: Option<usize>)
        ensures
            self.listed_at(id, r),
            exists|e: Entries<Episode>|
                self.holds(e) && match r {
                    Some(i) => e.position(id) == Some(i as int),
                    None => e.position(id) is None,
                },
    {
        self.position_of(id)
    }
}

/// What the threads of the program tell the main thread: the interface
/// what the user wants, and the workers that sync feeds and download
/// episodes what has come of their work. `F` and `D` are the workers' own
/// messages.
#[derive(Debug)]
pub enum Message<F, D> {
    Ui(UiMsg),
    Feed(F),
    Dl(D),
}

} // verus!
