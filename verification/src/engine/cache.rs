//! A small cache of directory listings, shared between the panes: a listing is kept per
//! directory, order and listing options; a newer request replaces an older one; when the
//! cache is full the listing stored longest ago makes room.

use crate::engine::fm::FileEntry;
use crate::engine::listing::{entry_views, DirListOptions};
use crate::engine::sort::SortConfig;
use crate::utils::collections::texts;
use crate::utils::text_eq;
use vstd::prelude::*;

verus! {

/// The most listings kept.
pub const DIR_CACHE_CAP: usize = 30;

/// What a listing is kept under: the directory, the order and the listing options.
pub struct DirCacheKey {
    path: String,
    sort: SortConfig,
    list: DirListOptions,
}

impl View for DirCacheKey {
    type V = (Seq<char>, SortConfig, DirListOptions);

    closed spec fn view(&self) -> Self::V {
        (self.path@, self.sort, self.list)
    }
}

impl DirCacheKey {
    /// The key of a listing.
    pub fn new(path: &str, sort: SortConfig, list_options: &DirListOptions) -> (r: Self)
        ensures
            r@ == (path@, sort, *list_options),
    {
        DirCacheKey { path: String::from_str(path), sort, list: *list_options }
    }

    fn matches(&self, path: &str, sort: SortConfig, list: &DirListOptions) -> (r: bool)
        ensures
            r == (self@ == (path@, sort, *list)),
    {
        text_eq(self.path.as_str(), path) && self.sort == sort && self.list == *list
    }
}

/// A kept listing: its entries, the sort column where the order needed one, the request it
/// answered, and when it was stored (a count of stores).
pub struct CachedDir {
    entries: Vec<FileEntry>,
    sort_column: Option<Vec<String>>,
    request_id: u64,
    stamp: u64,
}

/// The view of a kept listing.
pub type CachedView = (Seq<(Seq<char>, Seq<char>, u8, Option<Seq<char>>)>, Option<Seq<Seq<char>>>, u64, u64);

impl View for CachedDir {
    type V = CachedView;

    closed spec fn view(&self) -> Self::V {
        (entry_views(self.entries@), match &self.sort_column {
            Some(c) => Some(texts(c@)),
            None => None,
        }, self.request_id, self.stamp)
    }
}

impl CachedDir {
    /// The entries, in order.
    pub fn entries(&self) -> (r: &[FileEntry])
        ensures
            entry_views(r@) == self@.0,
    {
        self.entries.as_slice()
    }

    /// The sort column, if the order needed one.
    pub fn sort_column(&self) -> (r: Option<&Vec<String>>)
        ensures
            match r {
                Some(c) => self@.1 == Some(texts(c@)),
                None => self@.1 is None,
            },
    {
        self.sort_column.as_ref()
    }

    /// The request the listing answered.
    pub fn request_id(&self) -> (r: u64)
        ensures
            r == self@.2,
    {
        self.request_id
    }
}

/// A kept listing under its key.
pub type ItemView = ((Seq<char>, SortConfig, DirListOptions), CachedView);

/// The first position of the key `k` among `items`, if it is there.
pub open spec fn key_index(items: Seq<ItemView>, k: (Seq<char>, SortConfig, DirListOptions)) -> Option<int>
    decreases items.len(),
{
    if items.len() == 0 {
        None
    } else {
        match key_index(items.drop_last(), k) {
            Some(i) => Some(i),
            None => if items.last().0 == k { Some(items.len() - 1) } else { None },
        }
    }
}

/// Whether `j` is the first position holding the earliest stored listing.
pub open spec fn is_oldest(items: Seq<ItemView>, j: int) -> bool {
    &&& 0 <= j < items.len()
    &&& forall|i: int| 0 <= i < items.len() ==> items[j].1.3 <= #[trigger] items[i].1.3
    &&& forall|i: int| 0 <= i < j ==> #[trigger] items[i].1.3 > items[j].1.3
}

/// The listings after storing `new` under `k`: a listing already kept under `k` is replaced
/// when `new` answers the same or a later request and kept otherwise; without one, `new` is
/// added at the end.
pub open spec fn stored(items: Seq<ItemView>, k: (Seq<char>, SortConfig, DirListOptions), new: CachedView) -> Seq<ItemView> {
    match key_index(items, k) {
        Some(p) => if new.2 >= items[p].1.2 { items.update(p, (k, new)) } else { items },
        None => items.push((k, new)),
    }
}

/// The listings not of the directory `path`, in order.
pub open spec fn without_path(items: Seq<ItemView>, path: Seq<char>) -> Seq<ItemView>
    decreases items.len(),
{
    if items.len() == 0 {
        Seq::empty()
    } else if items.last().0.0 == path {
        without_path(items.drop_last(), path)
    } else {
        without_path(items.drop_last(), path).push(items.last())
    }
}

proof fn lemma_key_index_bounds(items: Seq<ItemView>, k: (Seq<char>, SortConfig, DirListOptions))
    ensures
        key_index(items, k) matches Some(i) ==> 0 <= i < items.len() && items[i].0 == k
            && forall|j: int| 0 <= j < i ==> #[trigger] items[j].0 != k,
        key_index(items, k) is None ==> forall|i: int| 0 <= i < items.len() ==> items[i].0 != k,
    decreases items.len(),
{
    if items.len() > 0 {
        lemma_key_index_bounds(items.drop_last(), k);
        assert forall|i: int| 0 <= i < items.len() - 1 implies items.drop_last()[i] == items[i] by {}
    }
}

proof fn lemma_without_path_from(items: Seq<ItemView>, path: Seq<char>)
    ensures
        without_path(items, path).len() <= items.len(),
        forall|i: int| 0 <= i < without_path(items, path).len() ==> items.contains(#[trigger] without_path(items, path)[i]),
    decreases items.len(),
{
    if items.len() > 0 {
        lemma_without_path_from(items.drop_last(), path);
        let rest = without_path(items.drop_last(), path);
        assert forall|i: int| 0 <= i < without_path(items, path).len() implies items.contains(#[trigger] without_path(items, path)[i]) by {
            if i < rest.len() {
                let x = rest[i];
                assert(items.drop_last().contains(x));
                let m = choose|m: int| 0 <= m < items.drop_last().len() && items.drop_last()[m] == x;
                assert(items[m] == x);
            } else {
                assert(items[items.len() - 1] == items.last());
            }
        }
    }
}

proof fn lemma_key_index_first(items: Seq<ItemView>, k: (Seq<char>, SortConfig, DirListOptions), i: int)
    requires
        0 <= i < items.len(),
        items[i].0 == k,
        forall|j: int| 0 <= j < i ==> #[trigger] items[j].0 != k,
    ensures
        key_index(items, k) == Some(i),
{
    lemma_key_index_bounds(items, k);
    match key_index(items, k) {
        Some(q) => {
            if q < i {
                assert(items[q].0 != k);
            } else if q > i {
                assert(items[i].0 != k);
            }
        },
        None => {
            assert(items[i].0 != k);
        },
    }
}

/// A store under `k` leaves every other key finding the listing it found before, at the same
/// place, or finding none as before.
pub proof fn lemma_store_keeps_others(
    items: Seq<ItemView>,
    k: (Seq<char>, SortConfig, DirListOptions),
    new: CachedView,
    other: (Seq<char>, SortConfig, DirListOptions),
)
    requires
        other != k,
    ensures
        key_index(stored(items, k, new), other) == key_index(items, other),
        key_index(items, other) matches Some(q) ==> stored(items, k, new)[q] == items[q],
{
    lemma_key_index_bounds(items, k);
    lemma_key_index_bounds(items, other);
    let after = stored(items, k, new);
    assert(after.len() >= items.len());
    assert forall|j: int| 0 <= j < after.len() implies (#[trigger] after[j]).0 != other || (j < items.len() && after[j] == items[j]) by {
        match key_index(items, k) {
            Some(p) => {
                if j == p && new.2 >= items[p].1.2 {
                    assert(after[j].0 == k);
                }
            },
            None => {
                if j == items.len() {
                    assert(after[j].0 == k);
                }
            },
        }
    }
    match key_index(items, other) {
        Some(q) => {
            assert(after[q] == items[q]) by {
                match key_index(items, k) {
                    Some(p) => {
                        if q == p {
                            assert(items[p].0 == k);
                        }
                    },
                    None => {},
                }
            }
            assert forall|j: int| 0 <= j < q implies #[trigger] after[j].0 != other by {
                if after[j].0 == other {
                    assert(items[j].0 != other);
                }
            }
            lemma_key_index_first(after, other, q);
        },
        None => {
            lemma_key_index_bounds(after, other);
            match key_index(after, other) {
                Some(i) => {
                    assert(after[i].0 == other);
                    assert(items[i].0 != other);
                },
                None => {},
            }
        },
    }
}

/// Dropping the listing at `j` (as the cache does with the oldest one when full) leaves every
/// other key finding the same listing as before, or none as before.
pub proof fn lemma_drop_keeps_others(items: Seq<ItemView>, j: int, other: (Seq<char>, SortConfig, DirListOptions))
    requires
        0 <= j < items.len(),
        items[j].0 != other,
    ensures
        match key_index(items, other) {
            Some(q) => key_index(items.remove(j), other) matches Some(q2) && items.remove(j)[q2] == items[q],
            None => key_index(items.remove(j), other) is None,
        },
{
    let rest = items.remove(j);
    lemma_key_index_bounds(items, other);
    lemma_key_index_bounds(rest, other);
    match key_index(items, other) {
        Some(q) => {
            let q2 = if q > j { q - 1 } else { q };
            assert(rest[q2] == items[q]);
            assert forall|m: int| 0 <= m < q2 implies #[trigger] rest[m].0 != other by {
                if m < j {
                    assert(rest[m] == items[m]);
                } else {
                    assert(rest[m] == items[m + 1]);
                }
            }
            lemma_key_index_first(rest, other, q2);
        },
        None => {
            match key_index(rest, other) {
                Some(i) => {
                    if i < j {
                        assert(rest[i] == items[i]);
                    } else {
                        assert(rest[i] == items[i + 1]);
                    }
                },
                None => {},
            }
        },
    }
}

/// After a store under `k`, the listing kept under `k` answers the later of the request kept
/// before (if any) and the request stored: an older answer never replaces a newer one.
pub proof fn lemma_store_keeps_latest(items: Seq<ItemView>, k: (Seq<char>, SortConfig, DirListOptions), new: CachedView)
    ensures
        key_index(stored(items, k, new), k) matches Some(q) && stored(items, k, new)[q].1.2 == (match key_index(items, k) {
            Some(p) => if new.2 >= items[p].1.2 { new.2 } else { items[p].1.2 },
            None => new.2,
        }),
{
    lemma_key_index_bounds(items, k);
    let after = stored(items, k, new);
    match key_index(items, k) {
        Some(p) => {
            assert forall|j: int| 0 <= j < p implies #[trigger] after[j].0 != k by {
                assert(items[j].0 != k);
            }
            lemma_key_index_first(after, k, p);
        },
        None => {
            assert forall|j: int| 0 <= j < items.len() implies #[trigger] after[j].0 != k by {
                assert(after[j] == items[j]);
            }
            lemma_key_index_first(after, k, items.len() as int);
        },
    }
}

/// The kept listings.
pub struct DirCache {
    items: Vec<(DirCacheKey, CachedDir)>,
    clock: u64,
}

impl DirCache {
    /// The kept listings, in the order they were first stored.
    pub closed spec fn items_view(&self) -> Seq<ItemView> {
        self.items@.map_values(|it: (DirCacheKey, CachedDir)| (it.0@, it.1@))
    }

    /// The number of stores so far.
    pub closed spec fn clock_view(&self) -> u64 {
        self.clock
    }

    /// At most `DIR_CACHE_CAP` listings, none stored after the current count of stores.
    pub closed spec fn wf(&self) -> bool {
        &&& self.items@.len() <= DIR_CACHE_CAP
        &&& forall|i: int| 0 <= i < self.items@.len() ==> (#[trigger] self.items@[i]).1@.3 <= self.clock
    }

    proof fn lemma_len_view(&self)
        requires
            self.wf(),
        ensures
            self.items_view().len() <= DIR_CACHE_CAP,
    {
    }

    proof fn lemma_item_view(&self, i: int)
        requires
            0 <= i < self.items@.len(),
        ensures
            self.items_view()[i] == (self.items@[i].0@, self.items@[i].1@),
    {
    }

    /// An empty cache.
    pub fn new() -> (r: Self)
        ensures
            r.wf(),
            r.items_view().len() == 0,
            r.clock_view() == 0,
    {
        let r = DirCache { items: Vec::new(), clock: 0 };
        assert(r.items_view() =~= Seq::<ItemView>::empty());
        r
    }

    /// The listing kept for `path` in the order `sort` with `list_options`, if there is one.
    pub fn get(&self, path: &str, sort: SortConfig, list_options: &DirListOptions) -> (r: Option<&CachedDir>)
        ensures
            match key_index(self.items_view(), (path@, sort, *list_options)) {
                Some(i) => r matches Some(c) && c@ == self.items_view()[i].1,
                None => r is None,
            },
    {
        let ghost k = (path@, sort, *list_options);
        proof {
            lemma_key_index_bounds(self.items_view(), k);
        }
        let mut i: usize = 0;
        while i < self.items.len()
            invariant
                i <= self.items@.len(),
                k == (path@, sort, *list_options),
                forall|j: int| 0 <= j < i ==> self.items_view()[j].0 != k,
            decreases self.items@.len() - i,
        {
            proof {
                self.lemma_item_view(i as int);
            }
            if self.items[i].0.matches(path, sort, list_options) {
                proof {
                    assert(self.items_view()[i as int].0 == k);
                    lemma_key_index_bounds(self.items_view(), k);
                    match key_index(self.items_view(), k) {
                        Some(p) => {
                            if p != i {
                                assert(self.items_view()[p].0 == k);
                            }
                        },
                        None => {},
                    }
                }
                return Some(&self.items[i].1);
            }
            i += 1;
        }
        None
    }

    fn oldest(&self) -> (r: usize)
        requires
            self.items@.len() > 0,
        ensures
            is_oldest(self.items_view(), r as int),
    {
        let mut best: usize = 0;
        let mut i: usize = 1;
        while i < self.items.len()
            invariant
                1 <= i <= self.items@.len(),
                best < i,
                forall|m: int| 0 <= m < i ==> self.items_view()[best as int].1.3 <= #[trigger] self.items_view()[m].1.3,
                forall|m: int| 0 <= m < best ==> #[trigger] self.items_view()[m].1.3 > self.items_view()[best as int].1.3,
            decreases self.items@.len() - i,
        {
            if self.items[i].1.stamp < self.items[best].1.stamp {
                best = i;
            }
            i += 1;
        }
        best
    }

    /// Stores a listing of `path` (answering `request_id`): when the cache is full, the listing
    /// stored longest ago is dropped first; then a listing kept under the same key is replaced
    /// unless it answers a later request, and without one the new listing is added.
    pub fn insert_if_newer(
        &mut self,
        path: &str,
        sort: SortConfig,
        list_options: &DirListOptions,
        entries: Vec<FileEntry>,
        sort_column: Option<Vec<String>>,
        request_id: u64,
    )
        requires
            old(self).wf(),
        ensures
            final(self).wf(),
            final(self).clock_view() == (if old(self).clock_view() < u64::MAX {
                (old(self).clock_view() + 1) as u64
            } else {
                old(self).clock_view()
            }),
            ({
                let k = (path@, sort, *list_options);
                let new: CachedView = (entry_views(entries@), match sort_column {
                    Some(c) => Some(texts(c@)),
                    None => None,
                }, request_id, old(self).clock_view());
                let old_items = old(self).items_view();
                if old_items.len() >= DIR_CACHE_CAP {
                    exists|j: int| is_oldest(old_items, j) && final(self).items_view() == stored(old_items.remove(j), k, new)
                } else {
                    final(self).items_view() == stored(old_items, k, new)
                }
            }),
            final(self).items_view().len() <= DIR_CACHE_CAP,
            ({
                let k = (path@, sort, *list_options);
                let items = final(self).items_view();
                key_index(items, k) matches Some(q) && (items[q].1.2 == request_id || exists|p: int|
                    0 <= p < old(self).items_view().len() && (#[trigger] old(self).items_view()[p]).0 == k
                        && old(self).items_view()[p].1.2 > request_id && items[q].1.2 == old(self).items_view()[p].1.2)
            }),
    {
        let ghost old_items = self.items_view();
        let ghost k = (path@, sort, *list_options);
        let ghost mut base = old_items;
        let ghost mut jj: int = 0;
        if self.items.len() >= DIR_CACHE_CAP {
            let j = self.oldest();
            self.items.remove(j);
            proof {
                jj = j as int;
                base = old_items.remove(j as int);
                assert(self.items_view() =~= base);
            }
        }
        assert(self.items_view() == base);
        assert(old_items.len() >= DIR_CACHE_CAP ==> is_oldest(old_items, jj) && base == old_items.remove(jj));
        assert(old_items.len() < DIR_CACHE_CAP ==> base == old_items);
        assert(forall|m: int| 0 <= m < base.len() ==> #[trigger] base[m].1.3 <= old(self).clock) by {
            assert forall|m: int| 0 <= m < base.len() implies #[trigger] base[m].1.3 <= old(self).clock by {
                let q = if old_items.len() >= DIR_CACHE_CAP && m >= jj { m + 1 } else { m };
                assert(base[m] == old_items[q]);
                old(self).lemma_item_view(q);
            }
        }
        let stamp = self.clock;
        let ghost new: CachedView = (entry_views(entries@), match &sort_column {
            Some(c) => Some(texts(c@)),
            None => None,
        }, request_id, stamp);
        let key = DirCacheKey::new(path, sort, list_options);
        let value = CachedDir { entries, sort_column, request_id, stamp };
        assert(value@ == new);
        proof {
            lemma_key_index_bounds(base, k);
        }
        let mut i: usize = 0;
        let mut found: Option<usize> = None;
        while i < self.items.len()
            invariant_except_break
                found is None,
            invariant
                i <= self.items@.len(),
                k == (path@, sort, *list_options),
                self.items_view() == base,
                forall|m: int| 0 <= m < i ==> base[m].0 != k,
            ensures
                found matches Some(p) ==> p < self.items@.len() && base[p as int].0 == k
                    && forall|m: int| 0 <= m < p ==> base[m].0 != k,
                found is None ==> forall|m: int| 0 <= m < base.len() ==> base[m].0 != k,
            decreases self.items@.len() - i,
        {
            proof {
                self.lemma_item_view(i as int);
            }
            if self.items[i].0.matches(path, sort, list_options) {
                found = Some(i);
                break;
            }
            i += 1;
        }
        match found {
            Some(p) => {
                proof {
                    match key_index(base, k) {
                        Some(q) => {
                            if q != p {
                                assert(base[q].0 == k);
                            }
                        },
                        None => {},
                    }
                    self.lemma_item_view(p as int);
                    assert(key_index(base, k) == Some(p as int));
                }
                if request_id >= self.items[p].1.request_id {
                    self.items.set(p, (key, value));
                    assert(self.items_view() =~= base.update(p as int, (k, new)));
                }
            },
            None => {
                proof {
                    lemma_key_index_bounds(base, k);
                    if key_index(base, k) is Some {
                        let q = key_index(base, k)->0;
                        assert(base[q].0 == k);
                    }
                }
                self.items.push((key, value));
                assert(self.items_view() =~= base.push((k, new)));
            },
        }
        assert(self.items_view() == stored(base, k, new));
        proof {
            lemma_store_keeps_latest(base, k, new);
            lemma_key_index_bounds(base, k);
            old(self).lemma_len_view();
            match key_index(base, k) {
                Some(p) => {
                    if !(new.2 >= base[p].1.2) {
                        let pp = if old_items.len() >= DIR_CACHE_CAP && p >= jj { p + 1 } else { p };
                        assert(base[p] == old_items[pp]);
                        assert(old_items[pp].0 == k);
                    }
                },
                None => {},
            }
        }
        if self.clock < u64::MAX {
            self.clock = self.clock + 1;
        }
        assert forall|m: int| 0 <= m < self.items@.len() implies (#[trigger] self.items@[m]).1@.3 <= self.clock by {
            self.lemma_item_view(m);
            if m < base.len() && self.items_view()[m] == base[m] {
            }
        }
    }

    /// Drops every listing of the directory `path`.
    pub fn invalidate_path(&mut self, path: &str)
        requires
            old(self).wf(),
        ensures
            final(self).wf(),
            final(self).clock_view() == old(self).clock_view(),
            final(self).items_view() == without_path(old(self).items_view(), path@),
    {
        let ghost old_items = self.items_view();
        let mut rest: Vec<(DirCacheKey, CachedDir)> = Vec::new();
        std::mem::swap(&mut rest, &mut self.items);
        let ghost n = rest@.len() as int;
        assert(rest@.map_values(|it: (DirCacheKey, CachedDir)| (it.0@, it.1@)) == old_items);
        let mut kept: Vec<(DirCacheKey, CachedDir)> = Vec::new();
        let ghost mut done: int = 0;
        assert(old_items.take(0) =~= Seq::<ItemView>::empty());
        while rest.len() > 0
            invariant
                0 <= done <= n,
                n == old_items.len(),
                rest@.len() == n - done,
                forall|m: int| 0 <= m < rest@.len() ==> ((#[trigger] rest@[m]).0@, rest@[m].1@) == old_items[done + m],
                kept@.map_values(|it: (DirCacheKey, CachedDir)| (it.0@, it.1@)) == without_path(old_items.take(done), path@),
            decreases rest@.len(),
        {
            let ghost rest_before = rest@;
            assert((rest_before[0].0@, rest_before[0].1@) == old_items[done + 0]);
            let it = rest.remove(0);
            let ghost x = (it.0@, it.1@);
            assert(x == old_items[done]);
            assert forall|m: int| 0 <= m < rest@.len() implies ((#[trigger] rest@[m]).0@, rest@[m].1@) == old_items[done + 1 + m] by {
                assert(rest@[m] == rest_before[m + 1]);
            }
            let ghost before = old_items.take(done);
            assert(old_items.take(done + 1).drop_last() =~= before);
            assert(old_items.take(done + 1).last() == x);
            if !text_eq(it.0.path.as_str(), path) {
                kept.push(it);
                assert(kept@.map_values(|it: (DirCacheKey, CachedDir)| (it.0@, it.1@)) =~= without_path(before, path@).push(x));
            }
            proof {
                done = done + 1;
            }
        }
        assert(old_items.take(n) =~= old_items);
        self.items = kept;
        proof {
            lemma_without_path_from(old_items, path@);
            let now = without_path(old_items, path@);
            assert(self.items_view() == now);
            assert forall|m: int| 0 <= m < self.items@.len() implies (#[trigger] self.items@[m]).1@.3 <= self.clock by {
                assert(self.items_view()[m] == now[m]);
                assert(old_items.contains(now[m]));
                let q = choose|q: int| 0 <= q < old_items.len() && old_items[q] == now[m];
                assert(old(self).items@[q].1@.3 <= old(self).clock);
            }
        }
    }
}

} // verus!
