//! The cache of ELF images.

use uluru::LRUCache;
use vstd::prelude::*;
use crate::elf::ElfImage;

verus! {

/// A least-recently-used cache: `uluru::LRUCache` is only carried.
#[verifier::external_type_specification]
#[verifier::external_body]
#[verifier::reject_recursive_types(T)]
pub struct ExLRUCache<T, const N: usize>(uluru::LRUCache<T, N>);

/// The number of images that are remembered.
pub const ELF_CACHE_SIZE: usize = 32;

/// What the cache holds, the most recently used item first.
pub uninterp spec fn cached_ids(cache: LRUCache<u64, 32>) -> Seq<u64>;

/// `uluru::LRUCache::new` makes a cache without items.
#[verifier::external_body]
fn lru_new() -> (cache: LRUCache<u64, 32>)
    ensures
        cached_ids(cache) == Seq::<u64>::empty(),
{
    LRUCache::new()
}

/// Whether two items are the same.
fn same_id(a: &u64, b: u64) -> (r: bool)
    ensures
        r == (*a == b),
{
    *a == b
}

/// `uluru::LRUCache::touch` looks for an item, the most recently used ones
/// first, and moves the first one that it finds to the front.
#[verifier::external_body]
fn lru_touch(cache: &mut LRUCache<u64, 32>, id: u64) -> (hit: bool)
    ensures
        hit == cached_ids(*old(cache)).contains(id),
        !hit ==> cached_ids(*final(cache)) == cached_ids(*old(cache)),
        hit ==> exists|i: int|
            0 <= i < cached_ids(*old(cache)).len() && #[trigger] cached_ids(*old(cache))[i] == id
                && !cached_ids(*old(cache)).take(i).contains(id) && cached_ids(*final(cache))
                == seq![id] + cached_ids(*old(cache)).remove(i),
{
    cache.touch(|e| same_id(e, id))
}

/// `uluru::LRUCache::insert` puts an item at the front. A full cache gives up
/// its least recently used item.
#[verifier::external_body]
fn lru_insert(cache: &mut LRUCache<u64, 32>, id: u64) -> (evicted: Option<u64>)
    ensures
        ({
            let before = cached_ids(*old(cache));
            let after = cached_ids(*final(cache));
            if before.len() < 32 {
                evicted is None && after == seq![id] + before
            } else {
                evicted == Some(before.last()) && after == seq![id] + before.drop_last()
            }
        }),
{
    cache.insert(id)
}

/// `uluru::LRUCache::front` gives the most recently used item.
#[verifier::external_body]
fn lru_front(cache: &LRUCache<u64, 32>) -> (id: Option<u64>)
    ensures
        id == (if cached_ids(*cache).len() > 0 {
            Some(cached_ids(*cache)[0])
        } else {
            None
        }),
{
    cache.front().copied()
}

/// `uluru::LRUCache::iter` goes through the items, the most recently used ones
/// first.
#[verifier::external_body]
fn lru_list(cache: &LRUCache<u64, 32>) -> (ids: Vec<u64>)
    ensures
        ids@ == cached_ids(*cache),
{
    cache.iter().copied().collect()
}

/// `uluru::LRUCache::clear` removes all items.
#[verifier::external_body]
fn lru_clear(cache: &mut LRUCache<u64, 32>)
    ensures
        cached_ids(*final(cache)) == Seq::<u64>::empty(),
{
    cache.clear()
}

/// The image in the file `location`, a number by which the embedding kernel
/// tells files apart.
#[derive(Debug)]
pub struct ElfCacheEntry {
    /// The file.
    pub location: u64,
    /// The image.
    pub image: ElfImage,
}

/// The images that were loaded last.
pub struct ElfLoader {
    cache: LRUCache<u64, 32>,
    entries: Vec<ElfCacheEntry>,
}

/// The files of `entries`.
pub open spec fn locations(entries: Seq<ElfCacheEntry>) -> Seq<u64> {
    entries.map_values(|e: ElfCacheEntry| e.location)
}

/// The files `ids` with `id` made the most recently used one, which it may
/// have been among them already.
pub open spec fn moved_to_front(ids: Seq<u64>, id: u64) -> Seq<u64> {
    if ids.contains(id) {
        seq![id] + ids.remove(ids.index_of(id))
    } else {
        ids
    }
}

/// The files `ids` with `id` added as the most recently used one. When there
/// is no room the least recently used one is given up.
pub open spec fn added_to_front(ids: Seq<u64>, id: u64) -> Seq<u64> {
    if ids.len() < ELF_CACHE_SIZE {
        seq![id] + ids
    } else {
        seq![id] + ids.drop_last()
    }
}

impl ElfLoader {
    /// The files whose images are remembered, the most recently used first.
    pub closed spec fn ids(&self) -> Seq<u64> {
        cached_ids(self.cache)
    }

    /// The image that is remembered of the file `location`.
    pub closed spec fn image(&self, location: u64) -> ElfImage {
        self.entries@[locations(self.entries@).index_of(location)].image
    }

    /// No file is remembered twice, there are not too many, and there are
    /// images of exactly those that are remembered.
    pub closed spec fn wf(&self) -> bool {
        &&& self.ids().len() <= ELF_CACHE_SIZE
        &&& self.ids().no_duplicates()
        &&& locations(self.entries@).no_duplicates()
        &&& forall|id: u64|
            self.ids().contains(id) <==> #[trigger] locations(self.entries@).contains(id)
    }

    /// A loader that remembers nothing.
    pub fn new() -> (r: Self)
        ensures
            r.wf(),
            r.ids() == Seq::<u64>::empty(),
    {
        let r = ElfLoader { cache: lru_new(), entries: Vec::new() };
        assert(locations(r.entries@) =~= Seq::<u64>::empty());
        r
    }

    /// Whether the image in `location` is remembered; if so it becomes the
    /// most recently used one.
    pub fn touch(&mut self, location: u64) -> (hit: bool)
        requires
            old(self).wf(),
        ensures
            final(self).wf(),
            hit == old(self).ids().contains(location),
            final(self).ids() == moved_to_front(old(self).ids(), location),
            forall|id: u64| #[trigger] final(self).image(id) == old(self).image(id),
    {
        let ghost before = self.ids();
        let hit = lru_touch(&mut self.cache, location);
        proof {
            if hit {
                let i = choose|i: int|
                    0 <= i < before.len() && #[trigger] before[i] == location && self.ids()
                        == seq![location] + before.remove(i);
                assert(i == before.index_of(location));
                lemma_move_to_front(before, location, i);
                assert(self.ids().no_duplicates());
                assert forall|id: u64|
                    self.ids().contains(id) <==> #[trigger] locations(self.entries@).contains(
                        id,
                    ) by {
                    assert(self.ids().contains(id) <==> before.contains(id));
                }
            }
        }
        hit
    }

    /// Remembers an image as the most recently used one. If there are too many
    /// the least recently used one is forgotten.
    pub fn insert(&mut self, entry: ElfCacheEntry)
        requires
            old(self).wf(),
            !old(self).ids().contains(entry.location),
        ensures
            final(self).wf(),
            final(self).ids() == added_to_front(old(self).ids(), entry.location),
            final(self).image(entry.location) == entry.image,
            forall|id: u64|
                id != entry.location && final(self).ids().contains(id)
                    ==> #[trigger] final(self).image(id) == old(self).image(id),
    {
        let ghost before = self.ids();
        let ghost old_entries = self.entries@;
        let ghost mut gone = old_entries.len() as int;
        let location: u64 = entry.location;
        let evicted = lru_insert(&mut self.cache, location);
        proof {
            lemma_add_to_front(before, location);
        }
        if let Some(id) = evicted {
            proof {
                assert(before.contains(id));
                assert(locations(self.entries@).contains(id));
            }
            let at = self.position(id);
            let _ = self.entries.remove(at);
            proof {
                lemma_remove_location(old_entries, at as int);
                gone = at as int;
            }
        }
        let ghost kept = self.entries@;
        proof {
            assert forall|id: u64| #[trigger] locations(kept).contains(id) implies before.contains(
                id,
            ) && (evicted matches Some(e) ==> id != e) by {}
            assert(!locations(kept).contains(location));
            lemma_push_location(kept, entry);
        }
        self.entries.push(entry);
        proof {
            let after = self.ids();
            assert forall|k: int| 0 <= k < kept.len() implies self.entries@.contains(
                #[trigger] kept[k],
            ) by {
                assert(self.entries@[k] == kept[k]);
            }
            assert forall|k: int| 0 <= k < kept.len() implies old_entries.contains(
                #[trigger] kept[k],
            ) by {
                if evicted is Some && k >= gone {
                    assert(old_entries[k + 1] == kept[k]);
                } else {
                    assert(old_entries[k] == kept[k]);
                }
            }
            assert forall|id: u64|
                after.contains(id) <==> #[trigger] locations(self.entries@).contains(id) by {
                assert(locations(self.entries@).contains(id) <==> (locations(kept).contains(id)
                    || id == location));
            }
            assert forall|id: u64| id != location && after.contains(id) implies #[trigger] self.image(
                id,
            ) == old(self).image(id) by {
                assert(locations(kept).contains(id));
                lemma_same_image(kept, self.entries@, id);
                lemma_same_image(kept, old_entries, id);
            }
            assert(self.entries@[kept.len() as int] == entry);
            assert(locations(self.entries@)[kept.len() as int] == location);
        }
    }

    /// Where the image of a remembered file is.
    fn position(&self, location: u64) -> (r: usize)
        requires
            locations(self.entries@).contains(location),
            locations(self.entries@).no_duplicates(),
        ensures
            r < self.entries@.len(),
            self.entries@[r as int].location == location,
            r == locations(self.entries@).index_of(location),
    {
        let ghost locs = locations(self.entries@);
        let mut i: usize = 0;
        while i < self.entries.len()
            invariant
                locs == locations(self.entries@),
                locs.contains(location),
                locs.no_duplicates(),
                i <= self.entries@.len(),
                forall|k: int| 0 <= k < i ==> #[trigger] locs[k] != location,
            decreases self.entries@.len() - i,
        {
            assert(locs[i as int] == self.entries@[i as int].location);
            if self.entries[i].location == location {
                return i;
            }
            i = i + 1;
        }
        assert(false);
        0
    }

    /// The most recently used image.
    pub fn front(&self) -> (r: Option<&ElfImage>)
        requires
            self.wf(),
        ensures
            match r {
                Some(image) => self.ids().len() > 0 && *image == self.image(self.ids()[0]),
                None => self.ids().len() == 0,
            },
    {
        match lru_front(&self.cache) {
            Some(id) => {
                assert(self.ids().contains(self.ids()[0]));
                assert(locations(self.entries@).contains(id));
                Some(&self.entries[self.position(id)].image)
            },
            None => None,
        }
    }

    /// The second most recently used image: that of the program, once its
    /// dynamic linker has been loaded after it.
    pub fn second(&self) -> (r: Option<&ElfImage>)
        requires
            self.wf(),
        ensures
            match r {
                Some(image) => self.ids().len() > 1 && *image == self.image(self.ids()[1]),
                None => self.ids().len() <= 1,
            },
    {
        let ids = lru_list(&self.cache);
        if ids.len() <= 1 {
            return None;
        }
        let id: u64 = ids[1];
        assert(self.ids().contains(self.ids()[1]));
        assert(locations(self.entries@).contains(id));
        Some(&self.entries[self.position(id)].image)
    }
}

/// Forgets all images.
pub fn clear_elf_cache(loader: &mut ElfLoader)
    requires
        old(loader).wf(),
    ensures
        final(loader).wf(),
        final(loader).ids() == Seq::<u64>::empty(),
{
    lru_clear(&mut loader.cache);
    loader.entries = Vec::new();
    assert(locations(loader.entries@) =~= Seq::<u64>::empty());
}

/// Moving an item to the front changes only the order.
proof fn lemma_move_to_front(ids: Seq<u64>, id: u64, i: int)
    requires
        ids.no_duplicates(),
        0 <= i < ids.len(),
        ids[i] == id,
    ensures
        (seq![id] + ids.remove(i)).no_duplicates(),
        (seq![id] + ids.remove(i)).len() == ids.len(),
        forall|x: u64| (seq![id] + ids.remove(i)).contains(x) <==> #[trigger] ids.contains(x),
{
    let after = seq![id] + ids.remove(i);
    assert forall|x: u64| after.contains(x) <==> #[trigger] ids.contains(x) by {
        if ids.contains(x) {
            let k = choose|k: int| 0 <= k < ids.len() && ids[k] == x;
            if k == i {
                assert(after[0] == x);
            } else if k < i {
                assert(after[k + 1] == x);
            } else {
                assert(after[k] == x);
            }
        }
        if after.contains(x) {
            let k = choose|k: int| 0 <= k < after.len() && after[k] == x;
            if k == 0 {
                assert(ids[i] == x);
            } else if k - 1 < i {
                assert(ids[k - 1] == x);
            } else {
                assert(ids[k] == x);
            }
        }
    }
}

/// Adding an item to the front adds it, and nothing else but the last item is
/// lost.
proof fn lemma_add_to_front(ids: Seq<u64>, id: u64)
    requires
        ids.no_duplicates(),
        !ids.contains(id),
        ids.len() <= ELF_CACHE_SIZE,
    ensures
        added_to_front(ids, id).no_duplicates(),
        added_to_front(ids, id).len() <= ELF_CACHE_SIZE,
        forall|x: u64|
            #![trigger added_to_front(ids, id).contains(x)]
            added_to_front(ids, id).contains(x) <==> (x == id || (ids.contains(x) && (ids.len()
                < ELF_CACHE_SIZE || x != ids.last()))),
{
    let after = added_to_front(ids, id);
    assert forall|x: u64| #![trigger after.contains(x)]
        after.contains(x) <==> (x == id || (ids.contains(x) && (ids.len() < ELF_CACHE_SIZE || x
            != ids.last()))) by {
        if x == id {
            assert(after[0] == x);
        } else if ids.contains(x) && (ids.len() < ELF_CACHE_SIZE || x != ids.last()) {
            let k = choose|k: int| 0 <= k < ids.len() && ids[k] == x;
            assert(after[k + 1] == x);
        }
        if after.contains(x) {
            let k = choose|k: int| 0 <= k < after.len() && after[k] == x;
            if k > 0 {
                assert(ids[k - 1] == x);
            }
        }
    }
    assert forall|a: int, b: int| 0 <= a < after.len() && 0 <= b < after.len() && a != b implies after[a]
        != after[b] by {
        if a > 0 && b > 0 {
            assert(ids[a - 1] != ids[b - 1]);
        } else if a == 0 {
            assert(ids.contains(ids[b - 1]));
        } else {
            assert(ids.contains(ids[a - 1]));
        }
    }
}

/// Removing an entry removes its file and no other.
proof fn lemma_remove_location(entries: Seq<ElfCacheEntry>, at: int)
    requires
        0 <= at < entries.len(),
        locations(entries).no_duplicates(),
    ensures
        locations(entries.remove(at)).no_duplicates(),
        forall|x: u64|
            #[trigger] locations(entries.remove(at)).contains(x) <==> (locations(entries).contains(
                x,
            ) && x != entries[at].location),
{
    let locs = locations(entries);
    let rest = locations(entries.remove(at));
    assert(rest =~= locs.remove(at));
    assert forall|x: u64| #[trigger] rest.contains(x) <==> (locs.contains(x) && x
        != entries[at].location) by {
        if rest.contains(x) {
            let k = choose|k: int| 0 <= k < rest.len() && rest[k] == x;
            if k < at {
                assert(locs[k] == x);
            } else {
                assert(locs[k + 1] == x);
            }
            assert(locs[at] == entries[at].location);
        }
        if locs.contains(x) && x != entries[at].location {
            let k = choose|k: int| 0 <= k < locs.len() && locs[k] == x;
            if k < at {
                assert(rest[k] == x);
            } else {
                assert(k != at);
                assert(rest[k - 1] == x);
            }
        }
    }
}

/// Adding an entry adds its file and no other.
proof fn lemma_push_location(entries: Seq<ElfCacheEntry>, entry: ElfCacheEntry)
    requires
        locations(entries).no_duplicates(),
        !locations(entries).contains(entry.location),
    ensures
        locations(entries.push(entry)).no_duplicates(),
        forall|x: u64|
            #[trigger] locations(entries.push(entry)).contains(x) <==> (locations(
                entries,
            ).contains(x) || x == entry.location),
{
    let locs = locations(entries);
    let more = locations(entries.push(entry));
    assert(more =~= locs.push(entry.location));
    assert forall|x: u64| #[trigger] more.contains(x) <==> (locs.contains(x) || x
        == entry.location) by {
        if locs.contains(x) {
            let k = choose|k: int| 0 <= k < locs.len() && locs[k] == x;
            assert(more[k] == x);
        }
        assert(more[locs.len() as int] == entry.location);
    }
    assert forall|a: int, b: int| 0 <= a < more.len() && 0 <= b < more.len() && a != b implies more[a]
        != more[b] by {
        if a < locs.len() && b < locs.len() {
            assert(locs[a] != locs[b]);
        } else if a < locs.len() {
            assert(locs.contains(locs[a]));
        } else {
            assert(locs.contains(locs[b]));
        }
    }
}

/// A list that holds no file twice has the same images as another one that
/// holds all its entries.
proof fn lemma_same_image(a: Seq<ElfCacheEntry>, b: Seq<ElfCacheEntry>, id: u64)
    requires
        locations(a).no_duplicates(),
        locations(b).no_duplicates(),
        locations(a).contains(id),
        locations(b).contains(id),
        forall|k: int| 0 <= k < a.len() ==> b.contains(#[trigger] a[k]),
    ensures
        a[locations(a).index_of(id)].image == b[locations(b).index_of(id)].image,
{
    let i = locations(a).index_of(id);
    let j = locations(b).index_of(id);
    assert(locations(a)[i] == id && a[i].location == id);
    assert(locations(b)[j] == id && b[j].location == id);
    assert(b.contains(a[i]));
    let k = choose|k: int| 0 <= k < b.len() && b[k] == a[i];
    assert(locations(b)[k] == id);
}

/// Once the dynamic linker of a program that was used last has been looked up,
/// or remembered, the linker is the most recently used image and the program
/// the second. This needs them to be different files: a program that is its
/// own dynamic linker stays the first.
pub proof fn law_program_comes_after_its_linker(ids: Seq<u64>, program: u64, linker: u64)
    requires
        ids.no_duplicates(),
        0 < ids.len() <= ELF_CACHE_SIZE,
        ids[0] == program,
        linker != program,
    ensures
        ({
            let after = if ids.contains(linker) {
                moved_to_front(ids, linker)
            } else {
                added_to_front(ids, linker)
            };
            after.len() >= 2 && after[0] == linker && after[1] == program
        }),
{
    if ids.contains(linker) {
        let i = ids.index_of(linker);
        assert(ids[i] == linker);
        assert(ids.remove(i)[0] == program);
    }
}

/// The files other than `id`, in their order.
pub open spec fn others(ids: Seq<u64>, id: u64) -> Seq<u64> {
    ids.filter(|x: u64| x != id)
}

/// All that are left once an item is removed are the others.
proof fn lemma_others(ids: Seq<u64>, i: int)
    requires
        ids.no_duplicates(),
        0 <= i < ids.len(),
    ensures
        others(ids, ids[i]) == ids.remove(i),
    decreases ids.len(),
{
    reveal(Seq::filter);
    let init = ids.drop_last();
    if i == ids.len() - 1 {
        lemma_all_others(init, ids[i]);
        assert(ids.remove(i) =~= init);
    } else {
        lemma_others(init, i);
        assert(ids.last() != ids[i]);
        assert(ids.remove(i) =~= init.remove(i).push(ids.last()));
    }
}

/// All items are others than one that is not there.
proof fn lemma_all_others(ids: Seq<u64>, id: u64)
    requires
        !ids.contains(id),
    ensures
        others(ids, id) == ids,
    decreases ids.len(),
{
    reveal(Seq::filter);
    if ids.len() > 0 {
        assert forall|k: int| 0 <= k < ids.len() - 1 implies ids.drop_last()[k] != id by {
            assert(ids.contains(ids[k]));
        }
        lemma_all_others(ids.drop_last(), id);
        assert(ids.contains(ids.last()));
        assert(ids.drop_last().push(ids.last()) =~= ids);
    }
}

/// An image that is looked up and remembered becomes the most recently used one,
/// and the order of the others, and what is remembered of each, stay. One that is
/// not remembered changes nothing.
pub proof fn law_used_image_comes_first(loader: &mut ElfLoader, location: u64, hit: bool)
    requires
        old(loader).wf(),
        call_ensures(ElfLoader::touch, (loader, location), hit),
    ensures
        hit <==> old(loader).ids().contains(location),
        hit ==> final(loader).ids() == seq![location] + others(old(loader).ids(), location),
        !hit ==> final(loader).ids() == old(loader).ids(),
        forall|id: u64| #[trigger] final(loader).image(id) == old(loader).image(id),
        final(loader).wf(),
{
    let ids = old(loader).ids();
    if hit {
        let i = ids.index_of(location);
        assert(ids[i] == location);
        lemma_others(ids, i);
    }
}

/// A new image is the most recently used one; the thirty-one that were used last
/// before it stay behind it, in their order, with what is remembered of them.
pub proof fn law_new_image_comes_first(loader: &mut ElfLoader, entry: ElfCacheEntry)
    requires
        old(loader).wf(),
        !old(loader).ids().contains(entry.location),
        call_ensures(ElfLoader::insert, (loader, entry), ()),
    ensures
        ({
            let before = old(loader).ids();
            let after = final(loader).ids();
            &&& after.len() > 0 && after[0] == entry.location
            &&& before.len() < 32 ==> after.skip(1) == before
            &&& before.len() >= 32 ==> after.skip(1) == before.take(31)
        }),
        final(loader).image(entry.location) == entry.image,
        forall|id: u64|
            id != entry.location && final(loader).ids().contains(id)
                ==> #[trigger] final(loader).image(id) == old(loader).image(id),
        final(loader).wf(),
{
    let before = old(loader).ids();
    let after = final(loader).ids();
    assert(before.len() < 32 ==> after.skip(1) =~= before);
    assert(before.len() >= 32 ==> after.skip(1) =~= before.take(31));
}

/// An image that was just remembered is the first, and the one that was the first
/// before is the second.
pub proof fn law_remembered_image_is_found(
    loader: &mut ElfLoader,
    entry: ElfCacheEntry,
    before: Option<&ElfImage>,
    first: Option<&ElfImage>,
    second: Option<&ElfImage>,
)
    requires
        old(loader).wf(),
        !old(loader).ids().contains(entry.location),
        call_ensures(ElfLoader::front, (old(loader),), before),
        call_ensures(ElfLoader::insert, (loader, entry), ()),
        call_ensures(ElfLoader::front, (final(loader),), first),
        call_ensures(ElfLoader::second, (final(loader),), second),
    ensures
        first == Some(&entry.image),
        second == before,
{
    let ids = old(loader).ids();
    let after = final(loader).ids();
    if ids.len() > 0 {
        assert(after[1] == ids[0]);
        assert(after.contains(after[1]));
        assert(ids.contains(ids[0]));
    }
}

/// An image that is used again is the first then, as it was remembered.
pub proof fn law_used_image_is_found(
    loader: &mut ElfLoader,
    location: u64,
    hit: bool,
    first: Option<&ElfImage>,
)
    requires
        old(loader).wf(),
        call_ensures(ElfLoader::touch, (loader, location), hit),
        call_ensures(ElfLoader::front, (final(loader),), first),
    ensures
        hit ==> first == Some(&old(loader).image(location)),
{
    if hit {
        assert(final(loader).ids()[0] == location);
    }
}

/// A loader that is new, or whose images were forgotten, has none.
pub proof fn law_forgotten_images_are_gone(
    new: ElfLoader,
    loader: &mut ElfLoader,
    of_new: Option<&ElfImage>,
    of_cleared: Option<&ElfImage>,
    other: &mut ElfLoader,
    location: u64,
    hit: bool,
)
    requires
        call_ensures(ElfLoader::new, (), new),
        call_ensures(ElfLoader::front, (&new,), of_new),
        old(loader).wf(),
        call_ensures(clear_elf_cache, (loader,), ()),
        call_ensures(ElfLoader::front, (final(loader),), of_cleared),
        *old(other) == new || *old(other) == *final(loader),
        call_ensures(ElfLoader::touch, (other, location), hit),
    ensures
        of_new is None && of_cleared is None && !hit,
{
}

} // verus!
