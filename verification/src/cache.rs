//! The texture cache: which decoded images the user interface holds as
//! textures (by texture number), kept in least-recently-used caches of
//! bounded size, which images are being decoded, and the image sizes seen.
use vstd::prelude::*;

use crate::browser::{law_prefetch_files_only, prefetch_candidates, prefetch_order};
use crate::decode::DecodeRequest;
use crate::dir::{views, DirEntry, DirState, EntryView, ZipSource};
use crate::state::AppState;
use crate::text::{chars_equal, chars_of};

verus! {

#[verifier::external_type_specification]
#[verifier::external_body]
#[verifier::reject_recursive_types(K)]
#[verifier::reject_recursive_types(V)]
#[verifier::reject_recursive_types(S)]
pub struct ExLruCache<K, V, S>(lru::LruCache<K, V, S>);

#[verifier::external_type_specification]
#[verifier::external_body]
pub struct ExLruHasher(lru::DefaultHasher);

/// What an LRU cache of paths to texture numbers holds, most recently used first.
pub uninterp spec fn lru_entries(c: lru::LruCache<String, u64>) -> Seq<(Seq<char>, u64)>;

/// The number of entries an LRU cache was made to hold.
pub uninterp spec fn lru_cap(c: lru::LruCache<String, u64>) -> nat;

/// The value held, as a sequence of at most one.
pub open spec fn opt_seq(o: Option<u64>) -> Seq<u64> {
    match o {
        Some(x) => seq![x],
        None => Seq::empty(),
    }
}

/// The position of the entry for `k`, if any.
pub open spec fn key_pos(es: Seq<(Seq<char>, u64)>, k: Seq<char>) -> Option<int> {
    if exists|i: int| 0 <= i < es.len() && es[i].0 == k {
        Some(choose|i: int| 0 <= i < es.len() && es[i].0 == k)
    } else {
        None
    }
}

/// At most `cap` entries, each key once.
pub open spec fn lru_wf(es: Seq<(Seq<char>, u64)>, cap: nat) -> bool {
    &&& cap > 0
    &&& es.len() <= cap
    &&& forall|i: int, j: int| 0 <= i < j < es.len() ==> es[i].0 != es[j].0
}

/// After `push(k, v)`: the entry goes first; an entry with the same key is
/// replaced (and returned), else the least recently used entry is evicted
/// (and returned) when the cache is full.
pub open spec fn pushed(es: Seq<(Seq<char>, u64)>, cap: nat, k: Seq<char>, v: u64) -> (Seq<(Seq<char>, u64)>, Option<(Seq<char>, u64)>) {
    match key_pos(es, k) {
        Some(i) => (seq![(k, v)] + es.remove(i), Some((k, es[i].1))),
        None => if es.len() == cap {
            (seq![(k, v)] + es.drop_last(), Some(es.last()))
        } else {
            (seq![(k, v)] + es, None)
        },
    }
}

/// After `get(k)` found the entry: it goes first.
pub open spec fn touched(es: Seq<(Seq<char>, u64)>, k: Seq<char>) -> Seq<(Seq<char>, u64)> {
    match key_pos(es, k) {
        Some(i) => seq![es[i]] + es.remove(i),
        None => es,
    }
}

/// After `pop(k)`: the entry is gone.
pub open spec fn popped(es: Seq<(Seq<char>, u64)>, k: Seq<char>) -> Seq<(Seq<char>, u64)> {
    match key_pos(es, k) {
        Some(i) => es.remove(i),
        None => es,
    }
}

/// The value stored for `k`, if any.
pub open spec fn value_of(es: Seq<(Seq<char>, u64)>, k: Seq<char>) -> Option<u64> {
    match key_pos(es, k) {
        Some(i) => Some(es[i].1),
        None => None,
    }
}

proof fn lemma_key_pos(es: Seq<(Seq<char>, u64)>, k: Seq<char>)
    ensures
        key_pos(es, k) matches Some(i) ==> 0 <= i < es.len() && es[i].0 == k,
        key_pos(es, k) is None ==> forall|j: int| 0 <= j < es.len() ==> es[j].0 != k,
{
}

/// Pushing, touching and popping keep an LRU cache well formed.
proof fn lemma_lru_ops_wf(es: Seq<(Seq<char>, u64)>, cap: nat, k: Seq<char>, v: u64)
    requires
        lru_wf(es, cap),
    ensures
        lru_wf(pushed(es, cap, k, v).0, cap),
        lru_wf(touched(es, k), cap),
        lru_wf(popped(es, k), cap),
{
    lemma_key_pos(es, k);
    match key_pos(es, k) {
        Some(i) => {
            let rest = es.remove(i);
            assert forall|j: int| 0 <= j < rest.len() implies rest[j].0 != k by {
                if j < i {
                    assert(rest[j] == es[j]);
                } else {
                    assert(rest[j] == es[j + 1]);
                }
            }
            assert forall|a: int, b: int| 0 <= a < b < rest.len() implies rest[a].0 != rest[b].0 by {
                let ia = if a < i { a } else { a + 1 };
                let ib = if b < i { b } else { b + 1 };
                assert(rest[a] == es[ia]);
                assert(rest[b] == es[ib]);
            }
            let n = seq![(k, v)] + rest;
            assert forall|a: int, b: int| 0 <= a < b < n.len() implies n[a].0 != n[b].0 by {
                if a == 0 {
                    assert(n[b] == rest[b - 1]);
                } else {
                    assert(n[a] == rest[a - 1]);
                    assert(n[b] == rest[b - 1]);
                }
            }
            let t = seq![es[i]] + rest;
            assert forall|a: int, b: int| 0 <= a < b < t.len() implies t[a].0 != t[b].0 by {
                if a == 0 {
                    assert(t[b] == rest[b - 1]);
                } else {
                    assert(t[a] == rest[a - 1]);
                    assert(t[b] == rest[b - 1]);
                }
            }
        },
        None => {
            let rest = if es.len() == cap { es.drop_last() } else { es };
            let n = seq![(k, v)] + rest;
            assert forall|a: int, b: int| 0 <= a < b < n.len() implies n[a].0 != n[b].0 by {
                if a == 0 {
                    assert(n[b] == rest[b - 1]);
                    assert(rest[b - 1] == es[b - 1]);
                } else {
                    assert(n[a] == rest[a - 1]);
                    assert(n[b] == rest[b - 1]);
                    assert(rest[a - 1] == es[a - 1]);
                    assert(rest[b - 1] == es[b - 1]);
                }
            }
        },
    }
}

/// Calls `LruCache::new` with a capacity of `cap` entries (which `NonZeroUsize`
/// holds); the cache starts empty.
#[verifier::external_body]
fn lru_new(cap: usize) -> (r: lru::LruCache<String, u64>)
    requires
        cap > 0,
    ensures
        lru_entries(r) == Seq::<(Seq<char>, u64)>::empty(),
        lru_cap(r) == cap,
{
    lru::LruCache::new(std::num::NonZeroUsize::new(cap).unwrap())
}

/// Calls `LruCache::push`: the entry becomes the most recently used; it
/// replaces an entry with the same key, or else evicts the least recently
/// used entry of a full cache; the replaced or evicted entry is returned.
#[verifier::external_body]
fn lru_push(c: &mut lru::LruCache<String, u64>, k: String, v: u64) -> (r: Option<(String, u64)>)
    requires
        lru_wf(lru_entries(*old(c)), lru_cap(*old(c))),
    ensures
        lru_entries(*final(c)) == pushed(lru_entries(*old(c)), lru_cap(*old(c)), k@, v).0,
        match r {
            Some((rk, rv)) => pushed(lru_entries(*old(c)), lru_cap(*old(c)), k@, v).1 == Some((rk@, rv)),
            None => pushed(lru_entries(*old(c)), lru_cap(*old(c)), k@, v).1 is None,
        },
        lru_cap(*final(c)) == lru_cap(*old(c)),
{
    c.push(k, v)
}

/// Calls `LruCache::get`: the value for the key, which becomes the most
/// recently used entry.
#[verifier::external_body]
fn lru_get(c: &mut lru::LruCache<String, u64>, k: &str) -> (r: Option<u64>)
    requires
        lru_wf(lru_entries(*old(c)), lru_cap(*old(c))),
    ensures
        r == value_of(lru_entries(*old(c)), k@),
        lru_entries(*final(c)) == touched(lru_entries(*old(c)), k@),
        lru_cap(*final(c)) == lru_cap(*old(c)),
{
    c.get(k).copied()
}

/// Calls `LruCache::pop`: the entry for the key is removed and its value
/// returned.
#[verifier::external_body]
fn lru_pop(c: &mut lru::LruCache<String, u64>, k: &str) -> (r: Option<u64>)
    requires
        lru_wf(lru_entries(*old(c)), lru_cap(*old(c))),
    ensures
        r == value_of(lru_entries(*old(c)), k@),
        lru_entries(*final(c)) == popped(lru_entries(*old(c)), k@),
        lru_cap(*final(c)) == lru_cap(*old(c)),
{
    c.pop(k)
}

/// Calls `LruCache::clear`: every entry is removed.
#[verifier::external_body]
fn lru_clear(c: &mut lru::LruCache<String, u64>)
    ensures
        lru_entries(*final(c)) == Seq::<(Seq<char>, u64)>::empty(),
        lru_cap(*final(c)) == lru_cap(*old(c)),
{
    c.clear()
}


// ---------------------------------------------------------------------------
// Sets of paths and the image sizes seen
// ---------------------------------------------------------------------------

/// The paths held in `v`.
pub open spec fn path_set(v: Seq<String>) -> Set<Seq<char>> {
    Set::new(|p: Seq<char>| exists|i: int| 0 <= i < v.len() && #[trigger] v[i]@ == p)
}

pub open spec fn distinct_paths(v: Seq<String>) -> bool {
    forall|i: int, j: int| 0 <= i < j < v.len() ==> v[i]@ != v[j]@
}

fn same_text(a: &str, b: &str) -> (r: bool)
    ensures
        r == (a@ == b@),
{
    chars_equal(&chars_of(a), b)
}

/// The position of `p` in `v`, if any.
fn find_path(v: &Vec<String>, p: &str) -> (r: Option<usize>)
    ensures
        match r {
            Some(i) => i < v@.len() && v@[i as int]@ == p@,
            None => !path_set(v@).contains(p@),
        },
{
    let mut i: usize = 0;
    while i < v.len()
        invariant
            0 <= i <= v@.len(),
            forall|j: int| 0 <= j < i ==> v@[j]@ != p@,
        decreases v@.len() - i,
    {
        if same_text(v[i].as_str(), p) {
            return Some(i);
        }
        i = i + 1;
    }
    None
}

fn set_insert(v: &mut Vec<String>, p: String)
    requires
        distinct_paths(old(v)@),
    ensures
        distinct_paths(final(v)@),
        path_set(final(v)@) == path_set(old(v)@).insert(p@),
{
    match find_path(v, p.as_str()) {
        Some(i) => {
            assert(path_set(v@).insert(p@) =~= path_set(v@));
        },
        None => {
            let ghost before = v@;
            let ghost pv = p@;
            v.push(p);
            assert forall|q: Seq<char>| path_set(v@).contains(q) == path_set(before).insert(pv).contains(q) by {
                if path_set(before).contains(q) {
                    let j = choose|j: int| 0 <= j < before.len() && #[trigger] before[j]@ == q;
                    assert(v@[j]@ == q);
                }
                if q == pv {
                    assert(v@[before.len() as int]@ == q);
                }
                if path_set(v@).contains(q) {
                    let j = choose|j: int| 0 <= j < v@.len() && #[trigger] v@[j]@ == q;
                    if j < before.len() {
                        assert(before[j]@ == q);
                    }
                }
            }
            assert(path_set(v@) =~= path_set(before).insert(pv));
        },
    }
}

fn set_remove(v: &mut Vec<String>, p: &str)
    requires
        distinct_paths(old(v)@),
    ensures
        distinct_paths(final(v)@),
        path_set(final(v)@) == path_set(old(v)@).remove(p@),
{
    match find_path(v, p) {
        Some(i) => {
            let ghost before = v@;
            v.remove(i);
            assert(v@ == before.remove(i as int));
            assert forall|q: Seq<char>| path_set(v@).contains(q) == path_set(before).remove(p@).contains(q) by {
                if path_set(before).contains(q) && q != p@ {
                    let j = choose|j: int| 0 <= j < before.len() && #[trigger] before[j]@ == q;
                    assert(j != i);
                    if j < i {
                        assert(v@[j]@ == q);
                    } else {
                        assert(v@[j - 1]@ == q);
                    }
                }
                if path_set(v@).contains(q) {
                    let j = choose|j: int| 0 <= j < v@.len() && #[trigger] v@[j]@ == q;
                    if j < i {
                        assert(before[j]@ == q);
                    } else {
                        assert(before[j + 1]@ == q);
                    }
                }
            }
            assert(path_set(v@) =~= path_set(before).remove(p@));
        },
        None => {
            assert(path_set(v@).remove(p@) =~= path_set(v@));
        },
    }
}

/// The sizes held in `v`, by path.
pub open spec fn size_map(v: Seq<(String, (u32, u32))>) -> Map<Seq<char>, (u32, u32)> {
    Map::new(
        |p: Seq<char>| exists|i: int| 0 <= i < v.len() && #[trigger] v[i].0@ == p,
        |p: Seq<char>| v[choose|i: int| 0 <= i < v.len() && #[trigger] v[i].0@ == p].1,
    )
}

pub open spec fn distinct_keys(v: Seq<(String, (u32, u32))>) -> bool {
    forall|i: int, j: int| 0 <= i < j < v.len() ==> v[i].0@ != v[j].0@
}

fn find_size(v: &Vec<(String, (u32, u32))>, p: &str) -> (r: Option<usize>)
    ensures
        match r {
            Some(i) => i < v@.len() && v@[i as int].0@ == p@,
            None => !size_map(v@).contains_key(p@),
        },
{
    let mut i: usize = 0;
    while i < v.len()
        invariant
            0 <= i <= v@.len(),
            forall|j: int| 0 <= j < i ==> v@[j].0@ != p@,
        decreases v@.len() - i,
    {
        if same_text(v[i].0.as_str(), p) {
            return Some(i);
        }
        i = i + 1;
    }
    None
}

// ---------------------------------------------------------------------------
// The cache
// ---------------------------------------------------------------------------

/// Textures of decoded images, by path: full-size images (15), thumbnails
/// (500) and animations (5), each an LRU cache of texture numbers; the
/// paths being decoded (full size or thumbnail); the current generation,
/// which changes whenever everything is dropped; and the image sizes seen.
pub struct TextureCache {
    full: lru::LruCache<String, u64>,
    thumbs: lru::LruCache<String, u64>,
    animated: lru::LruCache<String, u64>,
    pending_full: Vec<String>,
    pending_thumb: Vec<String>,
    generation: u64,
    image_dimensions: Vec<(String, (u32, u32))>,
}

/// The cache as plain values.
pub struct CacheView {
    pub full: Seq<(Seq<char>, u64)>,
    pub thumbs: Seq<(Seq<char>, u64)>,
    pub animated: Seq<(Seq<char>, u64)>,
    pub full_cap: nat,
    pub thumbs_cap: nat,
    pub animated_cap: nat,
    pub pending_full: Set<Seq<char>>,
    pub pending_thumb: Set<Seq<char>>,
    pub generation: u64,
    pub dims: Map<Seq<char>, (u32, u32)>,
}

impl View for TextureCache {
    type V = CacheView;

    closed spec fn view(&self) -> CacheView {
        CacheView {
            full: lru_entries(self.full),
            thumbs: lru_entries(self.thumbs),
            animated: lru_entries(self.animated),
            full_cap: lru_cap(self.full),
            thumbs_cap: lru_cap(self.thumbs),
            animated_cap: lru_cap(self.animated),
            pending_full: path_set(self.pending_full@),
            pending_thumb: path_set(self.pending_thumb@),
            generation: self.generation,
            dims: size_map(self.image_dimensions@),
        }
    }
}

impl TextureCache {
    /// The caches hold each path once and no more than they were made for;
    /// each pending path is listed once.
    pub closed spec fn wf(&self) -> bool {
        &&& lru_wf(lru_entries(self.full), lru_cap(self.full))
        &&& lru_wf(lru_entries(self.thumbs), lru_cap(self.thumbs))
        &&& lru_wf(lru_entries(self.animated), lru_cap(self.animated))
        &&& distinct_paths(self.pending_full@)
        &&& distinct_paths(self.pending_thumb@)
        &&& distinct_keys(self.image_dimensions@)
    }

    /// Empty caches for 15 full-size images, 500 thumbnails and 5 animations,
    /// at generation 0.
    pub fn new() -> (r: Self)
        ensures
            r.wf(),
            r@.full.len() == 0 && r@.thumbs.len() == 0 && r@.animated.len() == 0,
            r@.full_cap == 15 && r@.thumbs_cap == 500 && r@.animated_cap == 5,
            r@.pending_full == Set::<Seq<char>>::empty(),
            r@.pending_thumb == Set::<Seq<char>>::empty(),
            r@.generation == 0,
            r@.dims == Map::<Seq<char>, (u32, u32)>::empty(),
    {
        let r = TextureCache {
            full: lru_new(15),
            thumbs: lru_new(500),
            animated: lru_new(5),
            pending_full: Vec::new(),
            pending_thumb: Vec::new(),
            generation: 0,
            image_dimensions: Vec::new(),
        };
        assert(path_set(r.pending_full@) =~= Set::<Seq<char>>::empty());
        assert(path_set(r.pending_thumb@) =~= Set::<Seq<char>>::empty());
        assert(size_map(r.image_dimensions@) =~= Map::<Seq<char>, (u32, u32)>::empty());
        r
    }
}

impl TextureCache {
    /// The texture of the full-size image of `path`, which becomes the most
    /// recently used.
    pub fn get_full(&mut self, path: &str) -> (r: Option<u64>)
        requires
            old(self).wf(),
        ensures
            final(self).wf(),
            r == value_of(old(self)@.full, path@),
            final(self)@ == (CacheView { full: touched(old(self)@.full, path@), ..old(self)@ }),
    {
        proof {
            lemma_lru_ops_wf(lru_entries(self.full), lru_cap(self.full), path@, 0);
        }
        lru_get(&mut self.full, path)
    }

    /// The texture of the thumbnail of `path`, which becomes the most
    /// recently used.
    pub fn get_thumb(&mut self, path: &str) -> (r: Option<u64>)
        requires
            old(self).wf(),
        ensures
            final(self).wf(),
            r == value_of(old(self)@.thumbs, path@),
            final(self)@ == (CacheView { thumbs: touched(old(self)@.thumbs, path@), ..old(self)@ }),
    {
        proof {
            lemma_lru_ops_wf(lru_entries(self.thumbs), lru_cap(self.thumbs), path@, 0);
        }
        lru_get(&mut self.thumbs, path)
    }

    /// The animation of `path`, which becomes the most recently used.
    pub fn get_animated(&mut self, path: &str) -> (r: Option<u64>)
        requires
            old(self).wf(),
        ensures
            final(self).wf(),
            r == value_of(old(self)@.animated, path@),
            final(self)@ == (CacheView { animated: touched(old(self)@.animated, path@), ..old(self)@ }),
    {
        proof {
            lemma_lru_ops_wf(lru_entries(self.animated), lru_cap(self.animated), path@, 0);
        }
        lru_get(&mut self.animated, path)
    }

    /// Keep the full-size texture `id` of `path`, which is no longer being
    /// decoded; returns the texture that this replaces or evicts.
    pub fn insert_full(&mut self, path: String, id: u64) -> (r: Option<u64>)
        requires
            old(self).wf(),
        ensures
            final(self).wf(),
            final(self)@ == (CacheView {
                full: pushed(old(self)@.full, old(self)@.full_cap, path@, id).0,
                pending_full: old(self)@.pending_full.remove(path@),
                ..old(self)@
            }),
            r == match pushed(old(self)@.full, old(self)@.full_cap, path@, id).1 {
                Some(e) => Some(e.1),
                None => None,
            },
    {
        proof {
            lemma_lru_ops_wf(lru_entries(self.full), lru_cap(self.full), path@, id);
        }
        set_remove(&mut self.pending_full, path.as_str());
        match lru_push(&mut self.full, path, id) {
            Some((_, old_id)) => Some(old_id),
            None => None,
        }
    }

    /// Keep the thumbnail texture `id` of `path`, which is no longer being
    /// decoded; returns the texture that this replaces or evicts.
    pub fn insert_thumb(&mut self, path: String, id: u64) -> (r: Option<u64>)
        requires
            old(self).wf(),
        ensures
            final(self).wf(),
            final(self)@ == (CacheView {
                thumbs: pushed(old(self)@.thumbs, old(self)@.thumbs_cap, path@, id).0,
                pending_thumb: old(self)@.pending_thumb.remove(path@),
                ..old(self)@
            }),
            r == match pushed(old(self)@.thumbs, old(self)@.thumbs_cap, path@, id).1 {
                Some(e) => Some(e.1),
                None => None,
            },
    {
        proof {
            lemma_lru_ops_wf(lru_entries(self.thumbs), lru_cap(self.thumbs), path@, id);
        }
        set_remove(&mut self.pending_thumb, path.as_str());
        match lru_push(&mut self.thumbs, path, id) {
            Some((_, old_id)) => Some(old_id),
            None => None,
        }
    }

    /// Keep the animation `id` of `path`, whose full-size decode is done;
    /// returns the animation that this replaces or evicts.
    pub fn insert_animated(&mut self, path: String, id: u64) -> (r: Option<u64>)
        requires
            old(self).wf(),
        ensures
            final(self).wf(),
            final(self)@ == (CacheView {
                animated: pushed(old(self)@.animated, old(self)@.animated_cap, path@, id).0,
                pending_full: old(self)@.pending_full.remove(path@),
                ..old(self)@
            }),
            r == match pushed(old(self)@.animated, old(self)@.animated_cap, path@, id).1 {
                Some(e) => Some(e.1),
                None => None,
            },
    {
        proof {
            lemma_lru_ops_wf(lru_entries(self.animated), lru_cap(self.animated), path@, id);
        }
        set_remove(&mut self.pending_full, path.as_str());
        match lru_push(&mut self.animated, path, id) {
            Some((_, old_id)) => Some(old_id),
            None => None,
        }
    }

    /// Is the full-size image (or the thumbnail) of `path` being decoded?
    pub fn is_pending(&self, path: &str, is_thumbnail: bool) -> (r: bool)
        ensures
            r == if is_thumbnail {
                self@.pending_thumb.contains(path@)
            } else {
                self@.pending_full.contains(path@)
            },
    {
        let v = if is_thumbnail { &self.pending_thumb } else { &self.pending_full };
        match find_path(v, path) {
            Some(i) => {
                assert(path_set(v@).contains(path@));
                true
            },
            None => false,
        }
    }

    /// Note that the full-size image (or the thumbnail) of `path` is being decoded.
    pub fn mark_pending(&mut self, path: String, is_thumbnail: bool)
        requires
            old(self).wf(),
        ensures
            final(self).wf(),
            final(self)@ == if is_thumbnail {
                CacheView { pending_thumb: old(self)@.pending_thumb.insert(path@), ..old(self)@ }
            } else {
                CacheView { pending_full: old(self)@.pending_full.insert(path@), ..old(self)@ }
            },
    {
        if is_thumbnail {
            set_insert(&mut self.pending_thumb, path);
        } else {
            set_insert(&mut self.pending_full, path);
        }
    }

    /// Note that the decode of the full-size image (or the thumbnail) of
    /// `path` ended without an image.
    pub fn unmark_pending(&mut self, path: &str, is_thumbnail: bool)
        requires
            old(self).wf(),
        ensures
            final(self).wf(),
            final(self)@ == if is_thumbnail {
                CacheView { pending_thumb: old(self)@.pending_thumb.remove(path@), ..old(self)@ }
            } else {
                CacheView { pending_full: old(self)@.pending_full.remove(path@), ..old(self)@ }
            },
    {
        if is_thumbnail {
            set_remove(&mut self.pending_thumb, path);
        } else {
            set_remove(&mut self.pending_full, path);
        }
    }

    /// How many decodes are in flight.
    pub fn pending_count(&self) -> (r: usize)
        requires
            self.wf(),
            self@.pending_full.len() + self@.pending_thumb.len() <= usize::MAX,
        ensures
            r == self@.pending_full.len() + self@.pending_thumb.len(),
    {
        proof {
            lemma_path_set_len(self.pending_full@);
            lemma_path_set_len(self.pending_thumb@);
        }
        self.pending_full.len() + self.pending_thumb.len()
    }

    /// The generation of the cache's contents.
    pub fn generation(&self) -> (r: u64)
        ensures
            r == self@.generation,
    {
        self.generation
    }

    /// Drop everything and start a new generation, so that decodes asked for
    /// before are recognised as stale.
    pub fn clear_all(&mut self)
        requires
            old(self).wf(),
            old(self)@.generation < u64::MAX,
        ensures
            final(self).wf(),
            final(self)@ == (CacheView {
                full: Seq::empty(),
                thumbs: Seq::empty(),
                animated: Seq::empty(),
                pending_full: Set::empty(),
                pending_thumb: Set::empty(),
                generation: (old(self)@.generation + 1) as u64,
                dims: Map::empty(),
                ..old(self)@
            }),
    {
        lru_clear(&mut self.full);
        lru_clear(&mut self.thumbs);
        lru_clear(&mut self.animated);
        self.pending_full.clear();
        self.pending_thumb.clear();
        self.image_dimensions.clear();
        self.generation = self.generation + 1;
        assert(path_set(self.pending_full@) =~= Set::<Seq<char>>::empty());
        assert(path_set(self.pending_thumb@) =~= Set::<Seq<char>>::empty());
        assert(size_map(self.image_dimensions@) =~= Map::<Seq<char>, (u32, u32)>::empty());
    }

    /// Drop the full-size textures (to make them again with another filter).
    pub fn clear_full(&mut self)
        requires
            old(self).wf(),
        ensures
            final(self).wf(),
            final(self)@ == (CacheView { full: Seq::empty(), ..old(self)@ }),
    {
        lru_clear(&mut self.full);
    }

    /// Drop the animations.
    pub fn clear_animated(&mut self)
        requires
            old(self).wf(),
        ensures
            final(self).wf(),
            final(self)@ == (CacheView { animated: Seq::empty(), ..old(self)@ }),
    {
        lru_clear(&mut self.animated);
    }

    /// The size of the image of `path`, when it has been decoded.
    pub fn dimensions(&self, path: &str) -> (r: Option<(u32, u32)>)
        requires
            self.wf(),
        ensures
            match r {
                Some(d) => self@.dims.contains_key(path@) && self@.dims[path@] == d,
                None => !self@.dims.contains_key(path@),
            },
    {
        match find_size(&self.image_dimensions, path) {
            Some(i) => {
                proof {
                    let v = self.image_dimensions@;
                    assert(size_map(v).contains_key(path@));
                    let j = choose|j: int| 0 <= j < v.len() && #[trigger] v[j].0@ == path@;
                    assert(j == i);
                }
                Some(self.image_dimensions[i].1)
            },
            None => None,
        }
    }

    /// Remember the size of the image of `path`.
    pub fn set_dimensions(&mut self, path: String, dims: (u32, u32))
        requires
            old(self).wf(),
        ensures
            final(self).wf(),
            final(self)@ == (CacheView { dims: old(self)@.dims.insert(path@, dims), ..old(self)@ }),
    {
        let ghost before = self.image_dimensions@;
        let ghost pv = path@;
        match find_size(&self.image_dimensions, path.as_str()) {
            Some(i) => {
                self.image_dimensions.set(i, (path, dims));
                proof {
                    let v = self.image_dimensions@;
                    assert forall|a: int, b: int| 0 <= a < b < v.len() implies v[a].0@ != v[b].0@ by {
                        if a == i {
                            assert(v[a].0@ == before[a].0@);
                        }
                        if b == i {
                            assert(v[b].0@ == before[b].0@);
                        }
                    }
                    assert forall|q: Seq<char>| #[trigger] size_map(v).contains_key(q) == size_map(before).insert(pv, dims).contains_key(q) by {
                        if size_map(before).contains_key(q) {
                            let j = choose|j: int| 0 <= j < before.len() && #[trigger] before[j].0@ == q;
                            assert(v[j].0@ == q);
                        }
                        if size_map(v).contains_key(q) {
                            let j = choose|j: int| 0 <= j < v.len() && #[trigger] v[j].0@ == q;
                            assert(before[j].0@ == q);
                        }
                        if q == pv {
                            assert(v[i as int].0@ == q);
                        }
                    }
                    assert forall|q: Seq<char>| #[trigger] size_map(v).contains_key(q) implies size_map(v)[q] == size_map(before).insert(pv, dims)[q] by {
                        let j = choose|j: int| 0 <= j < v.len() && #[trigger] v[j].0@ == q;
                        if q == pv {
                            assert(j == i);
                        } else {
                            let k = choose|k: int| 0 <= k < before.len() && #[trigger] before[k].0@ == q;
                            assert(k == j);
                        }
                    }
                    assert(size_map(v) =~= size_map(before).insert(pv, dims));
                }
            },
            None => {
                self.image_dimensions.push((path, dims));
                proof {
                    let v = self.image_dimensions@;
                    assert forall|q: Seq<char>| #[trigger] size_map(v).contains_key(q) == size_map(before).insert(pv, dims).contains_key(q) by {
                        if size_map(before).contains_key(q) {
                            let j = choose|j: int| 0 <= j < before.len() && #[trigger] before[j].0@ == q;
                            assert(v[j].0@ == q);
                        }
                        if size_map(v).contains_key(q) {
                            let j = choose|j: int| 0 <= j < v.len() && #[trigger] v[j].0@ == q;
                            if j < before.len() {
                                assert(before[j].0@ == q);
                            }
                        }
                        if q == pv {
                            assert(v[before.len() as int].0@ == q);
                        }
                    }
                    assert forall|q: Seq<char>| #[trigger] size_map(v).contains_key(q) implies size_map(v)[q] == size_map(before).insert(pv, dims)[q] by {
                        let j = choose|j: int| 0 <= j < v.len() && #[trigger] v[j].0@ == q;
                        if q == pv {
                            assert(j == before.len());
                        } else {
                            let k = choose|k: int| 0 <= k < before.len() && #[trigger] before[k].0@ == q;
                            assert(v[k].0@ == q);
                            assert(k == j);
                        }
                    }
                    assert(size_map(v) =~= size_map(before).insert(pv, dims));
                }
            },
        }
    }

    /// Forget everything about `path` (its file changed): its textures (which
    /// are returned, to be released), its size and its pending decodes.
    pub fn forget(&mut self, path: &str) -> (r: Vec<u64>)
        requires
            old(self).wf(),
        ensures
            final(self).wf(),
            final(self)@ == (CacheView {
                full: popped(old(self)@.full, path@),
                thumbs: popped(old(self)@.thumbs, path@),
                animated: popped(old(self)@.animated, path@),
                pending_full: old(self)@.pending_full.remove(path@),
                pending_thumb: old(self)@.pending_thumb.remove(path@),
                dims: old(self)@.dims.remove(path@),
                ..old(self)@
            }),
            r@ == opt_seq(value_of(old(self)@.full, path@)) + opt_seq(value_of(old(self)@.thumbs, path@))
                + opt_seq(value_of(old(self)@.animated, path@)),
    {
        proof {
            lemma_lru_ops_wf(lru_entries(self.full), lru_cap(self.full), path@, 0);
            lemma_lru_ops_wf(lru_entries(self.thumbs), lru_cap(self.thumbs), path@, 0);
            lemma_lru_ops_wf(lru_entries(self.animated), lru_cap(self.animated), path@, 0);
        }
        let mut released: Vec<u64> = Vec::new();
        let a = lru_pop(&mut self.full, path);
        let b = lru_pop(&mut self.thumbs, path);
        let c = lru_pop(&mut self.animated, path);
        if let Some(x) = a {
            released.push(x);
        }
        if let Some(x) = b {
            released.push(x);
        }
        if let Some(x) = c {
            released.push(x);
        }
        set_remove(&mut self.pending_full, path);
        set_remove(&mut self.pending_thumb, path);
        remove_size(&mut self.image_dimensions, path);
        assert(released@ =~= opt_seq(a) + opt_seq(b) + opt_seq(c));
        released
    }
}

fn remove_size(v: &mut Vec<(String, (u32, u32))>, p: &str)
    requires
        distinct_keys(old(v)@),
    ensures
        distinct_keys(final(v)@),
        size_map(final(v)@) == size_map(old(v)@).remove(p@),
{
    let ghost before = v@;
    match find_size(v, p) {
        Some(i) => {
            v.remove(i);
            proof {
                let w = v@;
                assert(w == before.remove(i as int));
                assert forall|a: int, b: int| 0 <= a < b < w.len() implies w[a].0@ != w[b].0@ by {
                    let ia = if a < i { a } else { a + 1 };
                    let ib = if b < i { b } else { b + 1 };
                    assert(w[a] == before[ia]);
                    assert(w[b] == before[ib]);
                }
                assert forall|q: Seq<char>| #[trigger] size_map(w).contains_key(q) == size_map(before).remove(p@).contains_key(q) by {
                    if size_map(before).contains_key(q) && q != p@ {
                        let j = choose|j: int| 0 <= j < before.len() && #[trigger] before[j].0@ == q;
                        assert(j != i);
                        if j < i {
                            assert(w[j].0@ == q);
                        } else {
                            assert(w[j - 1].0@ == q);
                        }
                    }
                    if size_map(w).contains_key(q) {
                        let j = choose|j: int| 0 <= j < w.len() && #[trigger] w[j].0@ == q;
                        let oj = if j < i { j } else { j + 1 };
                        assert(before[oj].0@ == q);
                        assert(oj != i);
                    }
                }
                assert forall|q: Seq<char>| #[trigger] size_map(w).contains_key(q) implies size_map(w)[q] == size_map(before).remove(p@)[q] by {
                    let j = choose|j: int| 0 <= j < w.len() && #[trigger] w[j].0@ == q;
                    let oj = if j < i { j } else { j + 1 };
                    assert(before[oj] == w[j]);
                    let k = choose|k: int| 0 <= k < before.len() && #[trigger] before[k].0@ == q;
                    assert(k == oj);
                }
                assert(size_map(w) =~= size_map(before).remove(p@));
            }
        },
        None => {
            assert(size_map(v@) =~= size_map(before).remove(p@));
        },
    }
}

proof fn lemma_path_set_len(v: Seq<String>)
    requires
        distinct_paths(v),
    ensures
        path_set(v).finite(),
        path_set(v).len() == v.len(),
    decreases v.len(),
{
    if v.len() == 0 {
        assert(path_set(v) =~= Set::<Seq<char>>::empty());
    } else {
        let t = v.drop_last();
        lemma_path_set_len(t);
        assert(path_set(v) =~= path_set(t).insert(v.last()@)) by {
            assert forall|q: Seq<char>| path_set(v).contains(q) == path_set(t).insert(v.last()@).contains(q) by {
                if path_set(v).contains(q) {
                    let j = choose|j: int| 0 <= j < v.len() && #[trigger] v[j]@ == q;
                    if j < t.len() {
                        assert(t[j]@ == q);
                    }
                }
                if path_set(t).contains(q) {
                    let j = choose|j: int| 0 <= j < t.len() && #[trigger] t[j]@ == q;
                    assert(v[j]@ == q);
                }
                if q == v.last()@ {
                    assert(v[v.len() - 1]@ == q);
                }
            }
        }
        assert(!path_set(t).contains(v.last()@)) by {
            if path_set(t).contains(v.last()@) {
                let j = choose|j: int| 0 <= j < t.len() && #[trigger] t[j]@ == v.last()@;
                assert(v[j]@ == v[v.len() - 1]@);
            }
        }
    }
}

// ---------------------------------------------------------------------------
// Taking decode results
// ---------------------------------------------------------------------------

/// What a finished decode brought back, with the texture made for it.
pub enum ResultKind {
    /// An animation, the size of its first frame when it has frames.
    Animated { size: Option<(u32, u32)>, texture: u64 },
    /// A still image of the given size.
    Still { size: (u32, u32), texture: u64 },
    /// No image.
    Failed,
}

/// What became of a decode result.
pub enum TakeOutcome {
    /// It belongs to an earlier generation and was dropped.
    Stale,
    /// Its texture is kept; the texture it replaced or evicted, if any.
    Kept { released: Option<u64> },
    /// The decode failed; its path is no longer pending.
    Failed,
}

/// The number of an evicted or replaced entry, if any.
pub open spec fn released_id(e: Option<(Seq<char>, u64)>) -> Option<u64> {
    match e {
        Some(x) => Some(x.1),
        None => None,
    }
}

/// The cache after taking the result of decoding `p` (a thumbnail or the
/// full-size image) for `generation`, and the outcome: a result of another
/// generation changes nothing; an animation or a still image records its
/// size and is kept in the cache it belongs to; a failure is no longer pending.
pub open spec fn taken(cv: CacheView, generation: u64, p: Seq<char>, is_thumbnail: bool, kind: ResultKind) -> (CacheView, TakeOutcome) {
    if generation != cv.generation {
        (cv, TakeOutcome::Stale)
    } else {
        match kind {
            ResultKind::Animated { size, texture } => {
                let dims = match size {
                    Some(s) => cv.dims.insert(p, s),
                    None => cv.dims,
                };
                let (es, ev) = pushed(cv.animated, cv.animated_cap, p, texture);
                (
                    CacheView { animated: es, pending_full: cv.pending_full.remove(p), dims, ..cv },
                    TakeOutcome::Kept { released: released_id(ev) },
                )
            },
            ResultKind::Still { size, texture } => {
                let dims = cv.dims.insert(p, size);
                if is_thumbnail {
                    let (es, ev) = pushed(cv.thumbs, cv.thumbs_cap, p, texture);
                    (
                        CacheView { thumbs: es, pending_thumb: cv.pending_thumb.remove(p), dims, ..cv },
                        TakeOutcome::Kept { released: released_id(ev) },
                    )
                } else {
                    let (es, ev) = pushed(cv.full, cv.full_cap, p, texture);
                    (
                        CacheView { full: es, pending_full: cv.pending_full.remove(p), dims, ..cv },
                        TakeOutcome::Kept { released: released_id(ev) },
                    )
                }
            },
            ResultKind::Failed => {
                if is_thumbnail {
                    (CacheView { pending_thumb: cv.pending_thumb.remove(p), ..cv }, TakeOutcome::Failed)
                } else {
                    (CacheView { pending_full: cv.pending_full.remove(p), ..cv }, TakeOutcome::Failed)
                }
            },
        }
    }
}

/// Take the result of decoding `path` (a thumbnail or the full-size image)
/// that was asked for in `generation`; see `taken`.
pub fn take_decode_result(
    cache: &mut TextureCache,
    generation: u64,
    path: String,
    is_thumbnail: bool,
    kind: ResultKind,
) -> (r: TakeOutcome)
    requires
        old(cache).wf(),
    ensures
        final(cache).wf(),
        (final(cache)@, r) == taken(old(cache)@, generation, path@, is_thumbnail, kind),
{
    if generation != cache.generation() {
        return TakeOutcome::Stale;
    }
    match kind {
        ResultKind::Animated { size, texture } => {
            if let Some(s) = size {
                cache.set_dimensions(path.clone(), s);
            }
            let released = cache.insert_animated(path, texture);
            TakeOutcome::Kept { released }
        },
        ResultKind::Still { size, texture } => {
            cache.set_dimensions(path.clone(), size);
            let released = if is_thumbnail {
                cache.insert_thumb(path, texture)
            } else {
                cache.insert_full(path, texture)
            };
            TakeOutcome::Kept { released }
        },
        ResultKind::Failed => {
            cache.unmark_pending(path.as_str(), is_thumbnail);
            TakeOutcome::Failed
        },
    }
}

// ---------------------------------------------------------------------------
// Asking for decodes
// ---------------------------------------------------------------------------

/// A decode request as plain values: the path, whether a thumbnail is
/// wanted, the generation it belongs to and the zip member it comes from.
pub open spec fn request_view(r: crate::decode::DecodeRequest) -> (Seq<char>, bool, u64, Option<(Seq<char>, Seq<char>)>, u32) {
    (
        r.path@,
        r.is_thumbnail,
        r.generation,
        match r.zip_source {
            Some(z) => Some((z.archive_path@, z.entry_name@)),
            None => None,
        },
        r.thumb_size,
    )
}

/// The request for entry `e` at the cache's generation.
pub open spec fn request_for(e: EntryView, is_thumbnail: bool, generation: u64, thumb_size: u32) -> (Seq<char>, bool, u64, Option<(Seq<char>, Seq<char>)>, u32) {
    (e.path, is_thumbnail, generation, e.zip_source, thumb_size)
}

/// The cache after looking whether the full-size image of `p` is wanted:
/// the full-size texture, then the animation, are looked up (which marks
/// them used); when neither is there and no decode is in flight, the image
/// is marked as being decoded and wanted.
pub open spec fn look_full(cv: CacheView, p: Seq<char>) -> (CacheView, bool) {
    let c1 = CacheView { full: touched(cv.full, p), ..cv };
    if value_of(cv.full, p) is Some {
        (c1, false)
    } else {
        let c2 = CacheView { animated: touched(c1.animated, p), ..c1 };
        if value_of(c1.animated, p) is Some || c2.pending_full.contains(p) {
            (c2, false)
        } else {
            (CacheView { pending_full: c2.pending_full.insert(p), ..c2 }, true)
        }
    }
}

/// The cache and the requests after going through the first `k` prefetch
/// candidates `cs` of the listing `es`.
pub open spec fn prefetched(
    cv: CacheView,
    es: Seq<EntryView>,
    cs: Seq<usize>,
    k: int,
    thumb_size: u32,
) -> (CacheView, Seq<(Seq<char>, bool, u64, Option<(Seq<char>, Seq<char>)>, u32)>)
    decreases k,
{
    if k <= 0 {
        (cv, Seq::empty())
    } else {
        let (c, rs) = prefetched(cv, es, cs, k - 1, thumb_size);
        let e = es[cs[k - 1] as int];
        let (c2, wanted) = look_full(c, e.path);
        if wanted {
            (c2, rs.push(request_for(e, false, c.generation, thumb_size)))
        } else {
            (c2, rs)
        }
    }
}

fn clone_zip(z: &Option<ZipSource>) -> (r: Option<ZipSource>)
    ensures
        r == *z,
{
    match z {
        Some(s) => Some(s.clone()),
        None => None,
    }
}

/// Look whether the full-size image of `path` is wanted (see `look_full`).
fn want_full(cache: &mut TextureCache, path: &str) -> (r: bool)
    requires
        old(cache).wf(),
    ensures
        final(cache).wf(),
        (final(cache)@, r) == look_full(old(cache)@, path@),
{
    if cache.get_full(path).is_some() {
        return false;
    }
    if cache.get_animated(path).is_some() {
        return false;
    }
    if cache.is_pending(path, false) {
        return false;
    }
    cache.mark_pending(text_of(path), false);
    true
}

fn text_of(s: &str) -> (r: String)
    ensures
        r@ == s@,
{
    let mut out = String::new();
    crate::text::push_str(&mut out, s);
    out
}

/// The full-size decodes to ask for ahead of need (see
/// `browser::prefetch_order`): each candidate whose image is neither
/// cached nor being decoded is marked as being decoded and asked for.
pub fn prefetch(state: &AppState, dir: &DirState, cache: &mut TextureCache, thumb_size: u32) -> (r: Vec<DecodeRequest>)
    requires
        old(cache).wf(),
    ensures
        final(cache).wf(),
        (final(cache)@, r@.map_values(|q: DecodeRequest| request_view(q))) == prefetched(
            old(cache)@,
            views(dir.entries@),
            prefetch_order(state@, views(dir.entries@)),
            prefetch_order(state@, views(dir.entries@)).len() as int,
            thumb_size,
        ),
{
    let cs = prefetch_candidates(state, dir);
    let ghost es = views(dir.entries@);
    let n = dir.entries.len();
    proof {
        assert(es.len() == n);
        law_prefetch_files_only(state@, es);
    }
    let mut out: Vec<DecodeRequest> = Vec::new();
    let mut k: usize = 0;
    while k < cs.len()
        invariant
            0 <= k <= cs@.len(),
            es == views(dir.entries@),
            cs@ == prefetch_order(state@, es),
            forall|j: int| 0 <= j < cs@.len() ==> (#[trigger] cs@[j]) < es.len(),
            cache.wf(),
            (cache@, out@.map_values(|q: DecodeRequest| request_view(q))) == prefetched(old(cache)@, es, cs@, k as int, thumb_size),
        decreases cs@.len() - k,
    {
        let i = cs[k];
        assert(es[i as int] == dir.entries@[i as int]@);
        let generation = cache.generation();
        let e = &dir.entries[i];
        if want_full(cache, e.path.as_str()) {
            let req = DecodeRequest {
                path: e.path.clone(),
                is_thumbnail: false,
                generation,
                zip_source: clone_zip(&e.zip_source),
                thumb_size,
            };
            let ghost before = out@;
            out.push(req);
            assert(out@.map_values(|q: DecodeRequest| request_view(q)) =~= before.map_values(
                |q: DecodeRequest| request_view(q),
            ).push(request_for(es[i as int], false, generation, thumb_size)));
        }
        k = k + 1;
    }
    out
}

/// A decode of entry `e` (full size or thumbnail) to ask for when none is
/// in flight: the image is then marked as being decoded.
pub open spec fn asked(cv: CacheView, e: EntryView, is_thumbnail: bool, thumb_size: u32) -> (CacheView, Option<(Seq<char>, bool, u64, Option<(Seq<char>, Seq<char>)>, u32)>) {
    let pending = if is_thumbnail { cv.pending_thumb } else { cv.pending_full };
    if pending.contains(e.path) {
        (cv, None)
    } else {
        (
            if is_thumbnail {
                CacheView { pending_thumb: cv.pending_thumb.insert(e.path), ..cv }
            } else {
                CacheView { pending_full: cv.pending_full.insert(e.path), ..cv }
            },
            Some(request_for(e, is_thumbnail, cv.generation, thumb_size)),
        )
    }
}

/// Ask for the decode of `entry` that a view needs now (see `asked`).
pub fn request_decode(cache: &mut TextureCache, entry: &DirEntry, is_thumbnail: bool, thumb_size: u32) -> (r: Option<DecodeRequest>)
    requires
        old(cache).wf(),
    ensures
        final(cache).wf(),
        (final(cache)@, match r {
            Some(q) => Some(request_view(q)),
            None => None,
        }) == asked(old(cache)@, entry@, is_thumbnail, thumb_size),
{
    if cache.is_pending(entry.path.as_str(), is_thumbnail) {
        return None;
    }
    let generation = cache.generation();
    cache.mark_pending(entry.path.clone(), is_thumbnail);
    Some(DecodeRequest {
        path: entry.path.clone(),
        is_thumbnail,
        generation,
        zip_source: clone_zip(&entry.zip_source),
        thumb_size,
    })
}

// ---------------------------------------------------------------------------
// Laws
// ---------------------------------------------------------------------------

/// A texture just kept is found again under its path, as the most recently
/// used; the cache never holds more than it was made for, nor a path twice.
pub proof fn law_lru_keeps_latest(es: Seq<(Seq<char>, u64)>, cap: nat, k: Seq<char>, v: u64)
    requires
        lru_wf(es, cap),
    ensures
        value_of(pushed(es, cap, k, v).0, k) == Some(v),
        pushed(es, cap, k, v).0[0] == (k, v),
        lru_wf(pushed(es, cap, k, v).0, cap),
{
    lemma_lru_ops_wf(es, cap, k, v);
    let n = pushed(es, cap, k, v).0;
    assert(n[0] == (k, v));
    assert(n[0].0 == k);
    let w = choose|i: int| 0 <= i < n.len() && n[i].0 == k;
    assert(w == 0) by {
        if w != 0 {
            assert(n[0].0 != n[w].0);
        }
    }
}

/// Looking an entry up does not change what the cache holds, only the order.
pub proof fn law_lru_get_keeps_entries(es: Seq<(Seq<char>, u64)>, cap: nat, k: Seq<char>, q: Seq<char>)
    requires
        lru_wf(es, cap),
    ensures
        value_of(touched(es, k), q) == value_of(es, q),
        touched(es, k).len() == es.len(),
{
    lemma_key_pos(es, k);
    lemma_key_pos(es, q);
    let t = touched(es, k);
    lemma_lru_ops_wf(es, cap, k, 0);
    lemma_key_pos(t, q);
    match key_pos(es, k) {
        Some(i) => {
            match key_pos(es, q) {
                Some(j) => {
                    let tj = if j == i { 0 } else if j < i { j + 1 } else { j };
                    assert(t[tj] == es[j]);
                    let w = choose|x: int| 0 <= x < t.len() && t[x].0 == q;
                    assert(w == tj) by {
                        if w != tj {
                            if w < tj {
                                assert(t[w].0 != t[tj].0);
                            } else {
                                assert(t[tj].0 != t[w].0);
                            }
                        }
                    }
                },
                None => {
                    assert forall|x: int| 0 <= x < t.len() implies t[x].0 != q by {
                        if x == 0 {
                            assert(t[0] == es[i]);
                        } else if x <= i {
                            assert(t[x] == es[x - 1]);
                        } else {
                            assert(t[x] == es[x]);
                        }
                    }
                },
            }
        },
        None => {},
    }
}

/// After everything is dropped, decodes asked for before are recognised as
/// stale and skipped.
pub proof fn law_clear_makes_requests_stale(path: Seq<char>, is_thumbnail: bool, from_zip: bool, generation: u64)
    requires
        generation < u64::MAX,
    ensures
        crate::decode::plan_spec(path, is_thumbnail, from_zip, generation, (generation + 1) as u64)
            == crate::decode::DecodePlan::Skip,
{
}

} // verus!
