use vstd::prelude::*;
use crate::image_ops::image_size;
use crate::util::{file_size_text, format_file_size};
use crate::paths::{lemma_normal_form_identifies_path, normal_path, normalize_path, same_byte_path};

verus! {

/// Compares two byte strings for equality.
pub fn bytes_equal(a: &[u8], b: &[u8]) -> (r: bool)
    ensures
        r == (a@ == b@),
{
    if a.len() != b.len() {
        return false;
    }
    let n = a.len();
    let mut i: usize = 0;
    while i < n
        invariant
            n == a@.len(),
            n == b@.len(),
            i <= n,
            forall|j: int| 0 <= j < i ==> a@[j] == b@[j],
        decreases n - i,
    {
        if a[i] != b[i] {
            return false;
        }
        i = i + 1;
    }
    assert(a@ =~= b@);
    true
}

/// The views of a sequence of byte vectors.
pub open spec fn key_views(keys: Seq<Vec<u8>>) -> Seq<Seq<u8>> {
    keys.map_values(|k: Vec<u8>| k@)
}

/// True when no key occurs twice in `keys`.
pub open spec fn distinct_keys(keys: Seq<Seq<u8>>) -> bool {
    forall|i: int, j: int| 0 <= i < keys.len() && 0 <= j < keys.len() && i != j ==> keys[i] != keys[j]
}

/// In a sequence without repeats, an element's index is where it stands.
pub proof fn lemma_index_of_distinct(ks: Seq<Seq<u8>>, i: int)
    requires
        distinct_keys(ks),
        0 <= i < ks.len(),
    ensures
        ks.contains(ks[i]),
        ks.index_of(ks[i]) == i,
{
    assert(ks[i] == ks[i]);
    assert(ks.contains(ks[i]));
    let j = ks.index_of(ks[i]);
    assert(0 <= j < ks.len() && ks[j] == ks[i]);
}

/// The number of least recently used entries that a cache holding `len`
/// entries, with room for `max`, drops before it stores one new key.
pub open spec fn evicted_count(len: nat, max: nat) -> nat {
    if len >= max { (len - max + 1) as nat } else { 0 }
}

/// One RGBA pixel as a premultiplied ARGB word (alpha in the top byte), the
/// pixel format that Cairo's ARGB32 surfaces use: opaque pixels keep their
/// channels, fully transparent ones become zero, and otherwise each colour
/// channel is scaled by alpha/255, rounded to nearest.
pub open spec fn premultiplied(r: u8, g: u8, b: u8, a: u8) -> u32 {
    if a == 255 {
        (0xff00_0000 + r * 0x1_0000 + g * 0x100 + b) as u32
    } else if a == 0 {
        0
    } else {
        (a * 0x100_0000 + ((r * a + 127) / 255) * 0x1_0000 + ((g * a + 127) / 255) * 0x100
            + (b * a + 127) / 255) as u32
    }
}

/// Premultiplies one channel: `c * a / 255`, rounded to nearest.
fn scale_channel(c: u8, a: u8) -> (r: u32)
    requires
        a < 255,
    ensures
        r == (c * a + 127) / 255,
        r < 255,
{
    assert(c * a <= 255 * 254) by (nonlinear_arith)
        requires
            c <= 255,
            a <= 254,
    ;
    let p: u32 = c as u32 * a as u32;
    (p + 127) / 255
}

/// Converts tightly packed RGBA bytes into premultiplied ARGB words, one per
/// complete 4-byte pixel, in the same order.
pub fn premultiply_rgba(raw: &[u8]) -> (words: Vec<u32>)
    ensures
        words@.len() == raw@.len() / 4,
        forall|i: int|
            0 <= i < words@.len() ==> #[trigger] words@[i] == premultiplied(
                raw@[4 * i],
                raw@[4 * i + 1],
                raw@[4 * i + 2],
                raw@[4 * i + 3],
            ),
{
    let len = raw.len();
    let n = len / 4;
    let mut words: Vec<u32> = Vec::with_capacity(n);
    let mut i: usize = 0;
    while i < n
        invariant
            len == raw@.len(),
            n == len / 4,
            i <= n,
            words@.len() == i,
            forall|j: int|
                0 <= j < i ==> #[trigger] words@[j] == premultiplied(
                    raw@[4 * j],
                    raw@[4 * j + 1],
                    raw@[4 * j + 2],
                    raw@[4 * j + 3],
                ),
        decreases n - i,
    {
        assert(4 * i + 3 < len);
        let px = 4 * i;
        let r = raw[px];
        let g = raw[px + 1];
        let b = raw[px + 2];
        let a = raw[px + 3];
        let word: u32 = if a == 255 {
            0xff00_0000u32 + r as u32 * 0x1_0000 + g as u32 * 0x100 + b as u32
        } else if a == 0 {
            0
        } else {
            let pr = scale_channel(r, a);
            let pg = scale_channel(g, a);
            let pb = scale_channel(b, a);
            a as u32 * 0x100_0000 + pr * 0x1_0000 + pg * 0x100 + pb
        };
        words.push(word);
        i = i + 1;
    }
    words
}

/// A bounded key-value store that forgets its least recently used key first.
///
/// Keys are byte strings (the encoded bytes of a file path). Reading a key or
/// storing under it makes it the most recently used; storing under a new key
/// first drops the least recently used keys until there is room.
pub struct BoundedCache<V> {
    keys: Vec<Vec<u8>>,
    values: Vec<V>,
    max_entries: usize,
}

impl<V> BoundedCache<V> {
    /// The keys, least recently used first.
    pub closed spec fn key_seq(&self) -> Seq<Seq<u8>> {
        key_views(self.keys@)
    }

    /// The values, in the order of their keys.
    pub closed spec fn value_seq(&self) -> Seq<V> {
        self.values@
    }

    /// The greatest number of keys the cache holds.
    pub closed spec fn capacity(&self) -> nat {
        self.max_entries as nat
    }

    /// The cache's invariant: one value per key, no key twice, never over capacity.
    pub closed spec fn wf(&self) -> bool {
        &&& self.keys@.len() == self.values@.len()
        &&& distinct_keys(self.key_seq())
        &&& self.keys@.len() <= self.max_entries
    }

    /// True when `key` is stored.
    pub open spec fn holds(&self, key: Seq<u8>) -> bool {
        self.key_seq().contains(key)
    }

    /// The value stored under `key`, if any.
    pub open spec fn lookup(&self, key: Seq<u8>) -> Option<V> {
        if self.holds(key) {
            Some(self.value_seq()[self.key_seq().index_of(key)])
        } else {
            None
        }
    }

    /// An empty cache with room for `max_entries` keys.
    pub fn new(max_entries: usize) -> (c: Self)
        ensures
            c.wf(),
            c.key_seq() == Seq::<Seq<u8>>::empty(),
            c.value_seq() == Seq::<V>::empty(),
            c.capacity() == max_entries,
    {
        let c = BoundedCache { keys: Vec::new(), values: Vec::new(), max_entries };
        proof {
            assert(c.key_seq() =~= Seq::<Seq<u8>>::empty());
        }
        c
    }

    /// The number of stored keys.
    pub fn len(&self) -> (n: usize)
        requires
            self.wf(),
        ensures
            n == self.key_seq().len(),
    {
        self.keys.len()
    }

    /// The position of `key` in the eviction order, if stored.
    fn position(&self, key: &[u8]) -> (r: Option<usize>)
        requires
            self.wf(),
        ensures
            match r {
                Some(i) => i < self.key_seq().len() && self.key_seq()[i as int] == key@
                    && self.key_seq().index_of(key@) == i,
                None => !self.holds(key@),
            },
    {
        let n = self.keys.len();
        let mut i: usize = 0;
        while i < n
            invariant
                n == self.keys@.len(),
                i <= n,
                self.wf(),
                forall|j: int| 0 <= j < i ==> self.key_seq()[j] != key@,
            decreases n - i,
        {
            if bytes_equal(self.keys[i].as_slice(), key) {
                proof {
                    assert(self.key_seq()[i as int] == key@);
                    let ks = self.key_seq();
                    assert(ks.contains(key@));
                    let k = ks.index_of(key@);
                    assert(ks[k] == key@);
                    assert(k == i as int);
                }
                return Some(i);
            }
            i = i + 1;
        }
        proof {
            let ks = self.key_seq();
            if ks.contains(key@) {
                let k = ks.index_of(key@);
                assert(ks[k] == key@);
            }
        }
        None
    }

    /// Marks `key`, if stored, as the most recently used: it moves to the end
    /// of the eviction order, its value with it.
    fn touch(&mut self, key: &[u8]) -> (r: Option<usize>)
        requires
            old(self).wf(),
        ensures
            final(self).wf(),
            final(self).capacity() == old(self).capacity(),
            forall|k: Seq<u8>| #[trigger] final(self).holds(k) == old(self).holds(k)
                && final(self).lookup(k) == old(self).lookup(k),
            match r {
                Some(i) => {
                    &&& old(self).holds(key@)
                    &&& i == old(self).key_seq().index_of(key@)
                    &&& final(self).key_seq() == old(self).key_seq().remove(i as int).push(key@)
                    &&& final(self).value_seq() == old(self).value_seq().remove(i as int).push(
                        old(self).value_seq()[i as int],
                    )
                },
                None => {
                    &&& !old(self).holds(key@)
                    &&& final(self).key_seq() == old(self).key_seq()
                    &&& final(self).value_seq() == old(self).value_seq()
                },
            },
    {
        match self.position(key) {
            Some(i) => {
                let ghost k0 = self.key_seq();
                let ghost v0 = self.value_seq();
                let k = self.keys.remove(i);
                let v = self.values.remove(i);
                proof {
                    assert(self.key_seq() =~= k0.remove(i as int));
                }
                self.keys.push(k);
                self.values.push(v);
                proof {
                    let ks = self.key_seq();
                    assert(ks =~= k0.remove(i as int).push(key@));
                    assert(self.value_seq() =~= v0.remove(i as int).push(v0[i as int]));
                    assert forall|a: int, b: int|
                        0 <= a < ks.len() && 0 <= b < ks.len() && a != b implies ks[a] != ks[b] by {
                        let a0 = if a == ks.len() - 1 { i as int } else if a < i { a } else { a + 1 };
                        let b0 = if b == ks.len() - 1 { i as int } else if b < i { b } else { b + 1 };
                        assert(ks[a] == k0[a0]);
                        assert(ks[b] == k0[b0]);
                    }
                    assert forall|kk: Seq<u8>| #[trigger] self.holds(kk) == old(self).holds(kk)
                        && self.lookup(kk) == old(self).lookup(kk) by {
                        if k0.contains(kk) {
                            let j = k0.index_of(kk);
                            lemma_index_of_distinct(k0, j);
                            let j1 = if j == i { ks.len() - 1 } else if j < i { j } else { j - 1 };
                            assert(ks[j1] == kk);
                            lemma_index_of_distinct(ks, j1);
                        }
                        if ks.contains(kk) {
                            let j = ks.index_of(kk);
                            let j0 = if j == ks.len() - 1 { i as int } else if j < i { j } else { j + 1 };
                            assert(k0[j0] == kk);
                        }
                    }
                }
                Some(i)
            },
            None => None,
        }
    }

    /// The value stored under `key`, if any; reading it makes the key the
    /// most recently used.
    pub fn get(&mut self, key: &[u8]) -> (r: Option<&V>)
        requires
            old(self).wf(),
        ensures
            final(self).wf(),
            final(self).capacity() == old(self).capacity(),
            forall|k: Seq<u8>| #[trigger] final(self).holds(k) == old(self).holds(k)
                && final(self).lookup(k) == old(self).lookup(k),
            match r {
                Some(v) => old(self).lookup(key@) == Some(*v),
                None => old(self).lookup(key@) is None,
            },
            old(self).holds(key@) ==> final(self).key_seq() == old(self).key_seq().remove(
                old(self).key_seq().index_of(key@),
            ).push(key@),
            !old(self).holds(key@) ==> final(self).key_seq() == old(self).key_seq(),
    {
        match self.touch(key) {
            Some(_) => {
                let last = self.values.len() - 1;
                Some(&self.values[last])
            },
            None => None,
        }
    }

    /// Stores `value` under `key`, which becomes the most recently used key;
    /// when the key is new and the cache is full, the least recently used
    /// keys are dropped first.
    pub fn put(&mut self, key: Vec<u8>, value: V)
        requires
            old(self).wf(),
            old(self).capacity() >= 1 || old(self).holds(key@),
        ensures
            final(self).wf(),
            final(self).capacity() == old(self).capacity(),
            final(self).lookup(key@) == Some(value),
            forall|k: Seq<u8>| k != key@ && #[trigger] final(self).holds(k) ==> old(self).holds(k)
                && final(self).lookup(k) == old(self).lookup(k),
            old(self).holds(key@) ==> {
                let i = old(self).key_seq().index_of(key@);
                &&& final(self).key_seq() == old(self).key_seq().remove(i).push(key@)
                &&& final(self).value_seq() == old(self).value_seq().remove(i).push(value)
            },
            !old(self).holds(key@) ==> {
                let n = evicted_count(old(self).key_seq().len(), old(self).capacity()) as int;
                &&& final(self).key_seq() == old(self).key_seq().skip(n).push(key@)
                &&& final(self).value_seq() == old(self).value_seq().skip(n).push(value)
            },
    {
        match self.touch(key.as_slice()) {
            Some(i) => {
                let ghost v1 = self.value_seq();
                let last = self.values.len() - 1;
                self.values.set(last, value);
                proof {
                    let ks = self.key_seq();
                    let v0 = old(self).value_seq();
                    assert(self.value_seq() =~= v0.remove(i as int).push(value));
                    lemma_index_of_distinct(ks, last as int);
                    assert(ks[last as int] == key@);
                    assert forall|k: Seq<u8>| k != key@ && #[trigger] self.holds(k) implies old(self).holds(k)
                        && self.lookup(k) == old(self).lookup(k) by {
                        let j = ks.index_of(k);
                        lemma_index_of_distinct(ks, j);
                        assert(j != last as int);
                        assert(self.value_seq()[j] == v1[j]);
                    }
                }
            },
            None => {
                let ghost k0 = self.key_seq();
                let ghost v0 = self.value_seq();
                let ghost n = evicted_count(k0.len(), self.capacity()) as int;
                while self.keys.len() >= self.max_entries
                    invariant
                        self.max_entries >= 1,
                        self.max_entries == old(self).max_entries,
                        self.keys@.len() == self.values@.len(),
                        k0.len() <= self.max_entries,
                        n == evicted_count(k0.len(), self.max_entries as nat),
                        0 <= k0.len() - self.keys@.len() <= n,
                        self.key_seq() == k0.skip(k0.len() - self.keys@.len()),
                        self.value_seq() == v0.skip(k0.len() - self.keys@.len()),
                        k0.len() == v0.len(),
                        distinct_keys(k0),
                        !k0.contains(key@),
                    decreases self.keys@.len(),
                {
                    let ghost before = self.keys@;
                    self.keys.remove(0);
                    self.values.remove(0);
                    proof {
                        assert(self.key_seq() =~= key_views(before).skip(1));
                        assert(self.key_seq() =~= k0.skip(k0.len() - self.keys@.len()));
                        assert(self.value_seq() =~= v0.skip(k0.len() - self.keys@.len()));
                    }
                }
                let ghost before_keys = self.keys@;
                self.keys.push(key);
                self.values.push(value);
                proof {
                    assert(k0.len() - before_keys.len() == n);
                    assert(self.key_seq() =~= key_views(before_keys).push(key@));
                    let ks = self.key_seq();
                    assert forall|i: int, j: int|
                        0 <= i < ks.len() && 0 <= j < ks.len() && i != j implies ks[i] != ks[j] by {
                        if i < ks.len() - 1 && j < ks.len() - 1 {
                            assert(ks[i] == k0[i + n]);
                            assert(ks[j] == k0[j + n]);
                        } else if i == ks.len() - 1 {
                            assert(ks[j] == k0[j + n]);
                        } else {
                            assert(ks[i] == k0[i + n]);
                        }
                    }
                    let last = ks.len() - 1;
                    lemma_index_of_distinct(ks, last);
                    assert(ks[last] == key@);
                    assert forall|k: Seq<u8>| k != key@ && #[trigger] self.holds(k) implies old(self).holds(k)
                        && self.lookup(k) == old(self).lookup(k) by {
                        let j = ks.index_of(k);
                        lemma_index_of_distinct(ks, j);
                        assert(j != last);
                        assert(ks[j] == k0[j + n]);
                        lemma_index_of_distinct(k0, j + n);
                    }
                }
            },
        }
    }

    /// Forgets `key` and its value, if stored.
    pub fn remove(&mut self, key: &[u8])
        requires
            old(self).wf(),
        ensures
            final(self).wf(),
            final(self).capacity() == old(self).capacity(),
            !final(self).holds(key@),
            forall|k: Seq<u8>| k != key@ ==> #[trigger] final(self).holds(k) == old(self).holds(k)
                && final(self).lookup(k) == old(self).lookup(k),
            old(self).holds(key@) ==> {
                let i = old(self).key_seq().index_of(key@);
                &&& final(self).key_seq() == old(self).key_seq().remove(i)
                &&& final(self).value_seq() == old(self).value_seq().remove(i)
            },
            !old(self).holds(key@) ==> {
                &&& final(self).key_seq() == old(self).key_seq()
                &&& final(self).value_seq() == old(self).value_seq()
            },
    {
        match self.position(key) {
            Some(i) => {
                let ghost k0 = self.key_seq();
                let ghost kv = self.keys@;
                self.keys.remove(i);
                self.values.remove(i);
                proof {
                    assert(self.key_seq() =~= k0.remove(i as int));
                    let ks = self.key_seq();
                    assert forall|a: int, b: int|
                        0 <= a < ks.len() && 0 <= b < ks.len() && a != b implies ks[a] != ks[b] by {
                        let a0 = if a < i { a } else { a + 1 };
                        let b0 = if b < i { b } else { b + 1 };
                        assert(ks[a] == k0[a0]);
                        assert(ks[b] == k0[b0]);
                    }
                    if ks.contains(key@) {
                        let j = ks.index_of(key@);
                        let j0 = if j < i { j } else { j + 1 };
                        assert(ks[j] == k0[j0]);
                        assert(k0[i as int] == key@);
                    }
                    assert forall|k: Seq<u8>| k != key@ implies #[trigger] self.holds(k) == old(self).holds(k)
                        && self.lookup(k) == old(self).lookup(k) by {
                        if old(self).holds(k) {
                            let j0 = k0.index_of(k);
                            lemma_index_of_distinct(k0, j0);
                            assert(j0 != i);
                            let j = if j0 < i { j0 } else { j0 - 1 };
                            assert(ks[j] == k);
                            lemma_index_of_distinct(ks, j);
                        }
                        if self.holds(k) {
                            let j = ks.index_of(k);
                            lemma_index_of_distinct(ks, j);
                            let j0 = if j < i { j } else { j + 1 };
                            assert(ks[j] == k0[j0]);
                        }
                    }
                }
            },
            None => {},
        }
    }
}

/// The key used last is not among those that storing a new key drops, when
/// the cache has room for at least two keys: eviction takes the least
/// recently used keys from the front of the order.
pub proof fn lemma_most_recent_survives<V>(c: BoundedCache<V>)
    requires
        c.wf(),
        c.key_seq().len() > 0,
        c.capacity() >= 2,
    ensures
        c.key_seq().skip(evicted_count(c.key_seq().len(), c.capacity()) as int).contains(c.key_seq().last()),
{
    let ks = c.key_seq();
    let n = evicted_count(ks.len(), c.capacity()) as int;
    assert(ks.skip(n)[ks.len() - 1 - n] == ks.last());
}

/// The viewer's memory cache: decoded images and thumbnails, each kept in a
/// bounded cache of its own, keyed by the file path's normal form (see
/// [`normal_path`]), so that two spellings of one path share an entry.
pub struct ImageCache<I, T> {
    images: BoundedCache<I>,
    thumbnails: BoundedCache<T>,
}

impl<I, T> ImageCache<I, T> {
    /// The cache of full images.
    pub closed spec fn image_cache(&self) -> BoundedCache<I> {
        self.images
    }

    /// The cache of thumbnails.
    pub closed spec fn thumbnail_cache(&self) -> BoundedCache<T> {
        self.thumbnails
    }

    /// Both caches keep their invariants.
    pub open spec fn wf(&self) -> bool {
        self.image_cache().wf() && self.thumbnail_cache().wf()
    }

    /// An empty cache for at most `max_images` images and `max_thumbnails` thumbnails.
    pub fn new(max_images: usize, max_thumbnails: usize) -> (c: Self)
        ensures
            c.wf(),
            c.image_cache().key_seq() == Seq::<Seq<u8>>::empty(),
            c.thumbnail_cache().key_seq() == Seq::<Seq<u8>>::empty(),
            c.image_cache().capacity() == max_images,
            c.thumbnail_cache().capacity() == max_thumbnails,
    {
        ImageCache { images: BoundedCache::new(max_images), thumbnails: BoundedCache::new(max_thumbnails) }
    }

    /// The image stored for `path`, if any; it becomes the most recently
    /// used image.
    pub fn get_image(&mut self, path: &[u8]) -> (r: Option<&I>)
        requires
            old(self).wf(),
        ensures
            final(self).wf(),
            final(self).thumbnail_cache() == old(self).thumbnail_cache(),
            final(self).image_cache().capacity() == old(self).image_cache().capacity(),
            forall|k: Seq<u8>| #[trigger] final(self).image_cache().holds(k) == old(self).image_cache().holds(k)
                && final(self).image_cache().lookup(k) == old(self).image_cache().lookup(k),
            match r {
                Some(v) => old(self).image_cache().lookup(normal_path(path@)) == Some(*v),
                None => old(self).image_cache().lookup(normal_path(path@)) is None,
            },
            old(self).image_cache().holds(normal_path(path@)) ==> final(self).image_cache().key_seq()
                == old(self).image_cache().key_seq().remove(old(self).image_cache().key_seq().index_of(normal_path(path@))).push(
                normal_path(path@),
            ),
            !old(self).image_cache().holds(normal_path(path@)) ==> final(self).image_cache().key_seq()
                == old(self).image_cache().key_seq(),
    {
        let key = normalize_path(path);
        self.images.get(key.as_slice())
    }

    /// Stores the image for `path`, which becomes the most recently used
    /// image; a new image first drops the least recently used ones when full.
    pub fn put_image(&mut self, path: Vec<u8>, img: I)
        requires
            old(self).wf(),
            old(self).image_cache().capacity() >= 1 || old(self).image_cache().holds(normal_path(path@)),
        ensures
            final(self).wf(),
            final(self).thumbnail_cache() == old(self).thumbnail_cache(),
            final(self).image_cache().capacity() == old(self).image_cache().capacity(),
            final(self).image_cache().lookup(normal_path(path@)) == Some(img),
            forall|k: Seq<u8>| k != normal_path(path@) && #[trigger] final(self).image_cache().holds(k)
                ==> old(self).image_cache().holds(k)
                && final(self).image_cache().lookup(k) == old(self).image_cache().lookup(k),
            old(self).image_cache().holds(normal_path(path@)) ==> final(self).image_cache().key_seq()
                == old(self).image_cache().key_seq().remove(old(self).image_cache().key_seq().index_of(normal_path(path@))).push(
                normal_path(path@),
            ),
            !old(self).image_cache().holds(normal_path(path@)) ==> final(self).image_cache().key_seq()
                == old(self).image_cache().key_seq().skip(
                evicted_count(
                    old(self).image_cache().key_seq().len(),
                    old(self).image_cache().capacity(),
                ) as int,
            ).push(normal_path(path@)),
    {
        let key = normalize_path(path.as_slice());
        self.images.put(key, img);
    }

    /// The thumbnail stored for `path`, if any; it becomes the most recently
    /// used thumbnail.
    pub fn get_thumbnail(&mut self, path: &[u8]) -> (r: Option<&T>)
        requires
            old(self).wf(),
        ensures
            final(self).wf(),
            final(self).image_cache() == old(self).image_cache(),
            final(self).thumbnail_cache().capacity() == old(self).thumbnail_cache().capacity(),
            forall|k: Seq<u8>| #[trigger] final(self).thumbnail_cache().holds(k) == old(
                self,
            ).thumbnail_cache().holds(k) && final(self).thumbnail_cache().lookup(k) == old(
                self,
            ).thumbnail_cache().lookup(k),
            match r {
                Some(v) => old(self).thumbnail_cache().lookup(normal_path(path@)) == Some(*v),
                None => old(self).thumbnail_cache().lookup(normal_path(path@)) is None,
            },
            old(self).thumbnail_cache().holds(normal_path(path@)) ==> final(self).thumbnail_cache().key_seq()
                == old(self).thumbnail_cache().key_seq().remove(
                old(self).thumbnail_cache().key_seq().index_of(normal_path(path@)),
            ).push(normal_path(path@)),
            !old(self).thumbnail_cache().holds(normal_path(path@)) ==> final(self).thumbnail_cache().key_seq()
                == old(self).thumbnail_cache().key_seq(),
    {
        let key = normalize_path(path);
        self.thumbnails.get(key.as_slice())
    }

    /// Stores the thumbnail for `path`, which becomes the most recently used
    /// thumbnail; a new one first drops the least recently used ones when full.
    pub fn put_thumbnail(&mut self, path: Vec<u8>, thumb: T)
        requires
            old(self).wf(),
            old(self).thumbnail_cache().capacity() >= 1 || old(self).thumbnail_cache().holds(normal_path(path@)),
        ensures
            final(self).wf(),
            final(self).image_cache() == old(self).image_cache(),
            final(self).thumbnail_cache().capacity() == old(self).thumbnail_cache().capacity(),
            final(self).thumbnail_cache().lookup(normal_path(path@)) == Some(thumb),
            forall|k: Seq<u8>| k != normal_path(path@) && #[trigger] final(self).thumbnail_cache().holds(k)
                ==> old(self).thumbnail_cache().holds(k)
                && final(self).thumbnail_cache().lookup(k) == old(self).thumbnail_cache().lookup(k),
            old(self).thumbnail_cache().holds(normal_path(path@)) ==> final(self).thumbnail_cache().key_seq()
                == old(self).thumbnail_cache().key_seq().remove(old(self).thumbnail_cache().key_seq().index_of(normal_path(path@))).push(
                normal_path(path@),
            ),
            !old(self).thumbnail_cache().holds(normal_path(path@)) ==> final(self).thumbnail_cache().key_seq()
                == old(self).thumbnail_cache().key_seq().skip(
                evicted_count(
                    old(self).thumbnail_cache().key_seq().len(),
                    old(self).thumbnail_cache().capacity(),
                ) as int,
            ).push(normal_path(path@)),
    {
        let key = normalize_path(path.as_slice());
        self.thumbnails.put(key, thumb);
    }

    /// Forgets the image and the thumbnail of `path`.
    pub fn remove(&mut self, path: &[u8])
        requires
            old(self).wf(),
        ensures
            final(self).wf(),
            !final(self).image_cache().holds(normal_path(path@)),
            !final(self).thumbnail_cache().holds(normal_path(path@)),
            final(self).image_cache().capacity() == old(self).image_cache().capacity(),
            final(self).thumbnail_cache().capacity() == old(self).thumbnail_cache().capacity(),
            forall|k: Seq<u8>| k != normal_path(path@) ==> {
                &&& #[trigger] final(self).image_cache().lookup(k) == old(self).image_cache().lookup(k)
                &&& final(self).thumbnail_cache().lookup(k) == old(self).thumbnail_cache().lookup(k)
            },
    {
        let key = normalize_path(path);
        self.images.remove(key.as_slice());
        self.thumbnails.remove(key.as_slice());
    }
}


/// Two spellings of the same path find the same entry of a cache keyed by
/// normal forms.
pub proof fn lemma_same_path_shares_entry<V>(c: BoundedCache<V>, a: Seq<u8>, b: Seq<u8>)
    requires
        same_byte_path(a, b),
    ensures
        c.lookup(normal_path(a)) == c.lookup(normal_path(b)),
{
    lemma_normal_form_identifies_path(a, b);
}

/// A cache never holds more keys than it has room for.
pub proof fn lemma_cache_within_capacity<V>(c: BoundedCache<V>)
    requires
        c.wf(),
    ensures
        c.key_seq().len() <= c.capacity(),
{
}

/// The viewer's cache never holds more images or thumbnails than it was
/// made for.
pub proof fn lemma_image_cache_within_capacity<I, T>(c: ImageCache<I, T>)
    requires
        c.wf(),
    ensures
        c.image_cache().key_seq().len() <= c.image_cache().capacity(),
        c.thumbnail_cache().key_seq().len() <= c.thumbnail_cache().capacity(),
{
    lemma_cache_within_capacity(c.image_cache());
    lemma_cache_within_capacity(c.thumbnail_cache());
}

/// What the image crate's `load_from_memory` decodes from these bytes (the
/// format guessed from the content); `None` when they hold no image it can
/// decode. It depends on the bytes alone.
pub uninterp spec fn decoded(bytes: Seq<u8>) -> Option<image::DynamicImage>;

/// Decodes an image file's bytes (`image::load_from_memory`).
#[verifier::external_body]
fn decode_bytes(bytes: &[u8]) -> (r: Option<image::DynamicImage>)
    ensures
        r == decoded(bytes@),
{
    image::load_from_memory(bytes).ok()
}

/// The image's width and height (the image crate's
/// `GenericImageView::dimensions` for `DynamicImage`).
#[verifier::external_body]
fn image_dimensions(img: &image::DynamicImage) -> (r: (u32, u32))
    ensures
        r == image_size(*img),
{
    image::GenericImageView::dimensions(img)
}

/// What `DynamicImage::thumbnail` returns: the image scaled down to fit
/// `nwidth` by `nheight`, keeping its aspect ratio.
pub uninterp spec fn thumbnail_of(img: image::DynamicImage, nwidth: u32, nheight: u32) -> image::DynamicImage;

/// The image scaled down to fit `nwidth` by `nheight` (`DynamicImage::thumbnail`).
#[verifier::external_body]
fn scale_down(img: &image::DynamicImage, nwidth: u32, nheight: u32) -> (r: image::DynamicImage)
    ensures
        r == thumbnail_of(*img, nwidth, nheight),
{
    img.thumbnail(nwidth, nheight)
}

/// The image decoded from a file's bytes, if they hold one.
pub fn decode_image(bytes: &[u8]) -> (r: Option<image::DynamicImage>)
    ensures
        r == decoded(bytes@),
{
    decode_bytes(bytes)
}

/// A decoded image file: the image, its size, and the file's size as text.
pub struct DecodedImage {
    pub image: image::DynamicImage,
    pub width: u32,
    pub height: u32,
    pub file_size_formatted: String,
}

/// Decodes an image file from its bytes: `None` exactly when they hold no
/// image; otherwise the decoded image with its width and height and the
/// file's size (its number of bytes) as [`format_file_size`] writes it.
pub fn decode_image_file(bytes: &[u8]) -> (r: Option<DecodedImage>)
    ensures
        (r is Some) == (decoded(bytes@) is Some),
        r matches Some(d) ==> {
            &&& Some(d.image) == decoded(bytes@)
            &&& (d.width, d.height) == image_size(d.image)
            &&& d.file_size_formatted@ == file_size_text(bytes@.len())
        },
{
    let image = match decode_bytes(bytes) {
        Some(img) => img,
        None => return None,
    };
    let (width, height) = image_dimensions(&image);
    let file_size_formatted = format_file_size(bytes.len() as u64);
    Some(DecodedImage { image, width, height, file_size_formatted })
}

/// A thumbnail: the scaled-down image and its size.
pub struct Thumbnail {
    pub image: image::DynamicImage,
    pub width: u32,
    pub height: u32,
}

/// The thumbnail of an image that fits a `max_dim` square, with its size.
pub fn generate_thumbnail(img: &image::DynamicImage, max_dim: u32) -> (t: Thumbnail)
    ensures
        t.image == thumbnail_of(*img, max_dim, max_dim),
        (t.width, t.height) == image_size(t.image),
{
    let image = scale_down(img, max_dim, max_dim);
    let (width, height) = image_dimensions(&image);
    Thumbnail { image, width, height }
}

} // verus!
