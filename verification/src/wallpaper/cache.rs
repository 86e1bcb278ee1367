//! The frame cache: where its files live, an index of the images rendered
//! most recently, and the raw form of a stored frame.

use vstd::prelude::*;
use crate::spec::{Mode, Rgb, Spec};
use crate::text::{decimal, join_path, joined, push_decimal};

verus! {

/// Number of images the index keeps.
pub const MAX_CACHED_IMAGES: usize = 5;

/// Identity of a rendered image: the file, how it is shown, and the file's
/// size and modification time.
#[derive(Debug, Clone, PartialEq, Eq)]
pub struct ImageKey {
    pub path: String,
    pub mode: Mode,
    pub colour: Rgb,
    pub size: u64,
    pub mtime_secs: u64,
    pub mtime_nanos: u32,
}

/// Mathematical value of an image key.
pub struct ImageKeyView {
    pub path: Seq<char>,
    pub mode: Mode,
    pub colour: Rgb,
    pub size: u64,
    pub mtime_secs: u64,
    pub mtime_nanos: u32,
}

impl View for ImageKey {
    type V = ImageKeyView;

    open spec fn view(&self) -> ImageKeyView {
        ImageKeyView {
            path: self.path@,
            mode: self.mode,
            colour: self.colour,
            size: self.size,
            mtime_secs: self.mtime_secs,
            mtime_nanos: self.mtime_nanos,
        }
    }
}

impl ImageKey {
    /// Whether two keys are equal field by field.
    pub fn same(&self, other: &ImageKey) -> (r: bool)
        ensures
            r == (self@ == other@),
    {
        let same_path = self.path == other.path;
        same_path && self.mode == other.mode && self.colour == other.colour && self.size
            == other.size && self.mtime_secs == other.mtime_secs && self.mtime_nanos
            == other.mtime_nanos
    }
}

/// One image of the index: the directory its frames are stored under, its
/// key, and when it was last recorded.
#[derive(Debug, Clone, PartialEq, Eq)]
pub struct CacheEntry {
    pub id: u64,
    pub key: ImageKey,
    pub created_secs: u64,
}

/// Mathematical value of an entry.
pub struct CacheEntryView {
    pub id: u64,
    pub key: ImageKeyView,
    pub created_secs: u64,
}

impl View for CacheEntry {
    type V = CacheEntryView;

    open spec fn view(&self) -> CacheEntryView {
        CacheEntryView { id: self.id, key: self.key@, created_secs: self.created_secs }
    }
}

/// The index: entries, most recently recorded first.
#[derive(Debug, Clone, PartialEq, Eq)]
pub struct CacheIndex {
    pub entries: Vec<CacheEntry>,
}

impl View for CacheIndex {
    type V = Seq<CacheEntryView>;

    open spec fn view(&self) -> Seq<CacheEntryView> {
        Seq::new(self.entries.len() as nat, |i: int| self.entries[i]@)
    }
}

/// What recording an image did.
#[derive(Debug, Clone, PartialEq, Eq)]
pub struct Recorded {
    /// The id to store frames under.
    pub id: u64,
    /// Whether the image was in the index already.
    pub refreshed: bool,
    /// The ids of the entries that left the index, whose directories are to
    /// be removed; the least recent first.
    pub evicted: Vec<u64>,
}

/// Whether an entry of the index has this key.
pub open spec fn has_key(entries: Seq<CacheEntryView>, key: ImageKeyView) -> bool {
    exists|i: int| 0 <= i < entries.len() && (#[trigger] entries[i]).key == key
}

/// Whether `i` is the place of the first entry with this key.
pub open spec fn is_first_match(entries: Seq<CacheEntryView>, key: ImageKeyView, i: int) -> bool {
    &&& 0 <= i < entries.len()
    &&& entries[i].key == key
    &&& forall|j: int| 0 <= j < i ==> (#[trigger] entries[j]).key != key
}

/// The place of the first entry with this key.
pub open spec fn first_match(entries: Seq<CacheEntryView>, key: ImageKeyView) -> int {
    choose|i: int| is_first_match(entries, key, i)
}

/// The id that the index holds for a key, if it holds the key.
pub open spec fn found(entries: Seq<CacheEntryView>, key: ImageKeyView) -> Option<u64> {
    if has_key(entries, key) {
        Some(entries[first_match(entries, key)].id)
    } else {
        None
    }
}

/// The index held to its cap: the most recent entries.
pub open spec fn pruned(entries: Seq<CacheEntryView>) -> Seq<CacheEntryView> {
    if entries.len() > MAX_CACHED_IMAGES {
        entries.take(MAX_CACHED_IMAGES as int)
    } else {
        entries
    }
}

/// The ids of the entries beyond the cap, the least recent first.
pub open spec fn evicted_ids(entries: Seq<CacheEntryView>) -> Seq<u64> {
    if entries.len() > MAX_CACHED_IMAGES {
        Seq::new(
            (entries.len() - MAX_CACHED_IMAGES) as nat,
            |k: int| entries[entries.len() - 1 - k].id,
        )
    } else {
        Seq::empty()
    }
}

/// The index with an image moved or put to its head, before pruning. An
/// image that is there keeps its id and takes the new time; a new image
/// gets `new_id`.
pub open spec fn promoted(
    entries: Seq<CacheEntryView>,
    key: ImageKeyView,
    new_id: u64,
    now_secs: u64,
) -> Seq<CacheEntryView> {
    if has_key(entries, key) {
        let p = first_match(entries, key);
        seq![CacheEntryView { created_secs: now_secs, ..entries[p] }] + entries.remove(p)
    } else {
        seq![CacheEntryView { id: new_id, key, created_secs: now_secs }] + entries
    }
}

/// The index after an image was recorded.
pub open spec fn recorded(
    entries: Seq<CacheEntryView>,
    key: ImageKeyView,
    new_id: u64,
    now_secs: u64,
) -> Seq<CacheEntryView> {
    pruned(promoted(entries, key, new_id, now_secs))
}

/// The id under which a recorded image stores its frames.
pub open spec fn recorded_id(entries: Seq<CacheEntryView>, key: ImageKeyView, new_id: u64) -> u64 {
    match found(entries, key) {
        Some(id) => id,
        None => new_id,
    }
}

proof fn lemma_least_match(entries: Seq<CacheEntryView>, key: ImageKeyView, n: int, w: int)
    requires
        0 <= n <= w < entries.len(),
        entries[w].key == key,
        forall|j: int| 0 <= j < n ==> (#[trigger] entries[j]).key != key,
    ensures
        exists|i: int| is_first_match(entries, key, i),
    decreases w - n,
{
    if entries[n].key == key {
        assert(is_first_match(entries, key, n));
    } else {
        lemma_least_match(entries, key, n + 1, w);
    }
}

/// An index that holds a key holds a first entry with it.
proof fn lemma_has_first_match(entries: Seq<CacheEntryView>, key: ImageKeyView)
    requires
        has_key(entries, key),
    ensures
        is_first_match(entries, key, first_match(entries, key)),
{
    let w = choose|i: int| 0 <= i < entries.len() && (#[trigger] entries[i]).key == key;
    lemma_least_match(entries, key, 0, w);
}

proof fn lemma_first_match_is(entries: Seq<CacheEntryView>, key: ImageKeyView, i: int)
    requires
        is_first_match(entries, key, i),
    ensures
        has_key(entries, key),
        first_match(entries, key) == i,
{
}

impl CacheIndex {
    /// An index without entries.
    pub fn new() -> (idx: CacheIndex)
        ensures
            idx@.len() == 0,
    {
        CacheIndex { entries: Vec::new() }
    }

    /// Place of the first entry with this key, if there is one.
    fn position(&self, key: &ImageKey) -> (r: Option<usize>)
        ensures
            r is Some == has_key(self@, key@),
            r is Some ==> is_first_match(self@, key@, r.unwrap() as int) && first_match(
                self@,
                key@,
            ) == r.unwrap(),
    {
        let mut i: usize = 0;
        while i < self.entries.len()
            invariant
                i <= self.entries.len(),
                forall|j: int| 0 <= j < i ==> (#[trigger] self@[j]).key != key@,
            decreases self.entries.len() - i,
        {
            if self.entries[i].key.same(key) {
                proof {
                    lemma_first_match_is(self@, key@, i as int);
                }
                return Some(i);
            }
            i += 1;
        }
        None
    }

    /// The id recorded for a key, if the index holds an entry that equals
    /// it in every field.
    pub fn find(&self, key: &ImageKey) -> (r: Option<u64>)
        ensures
            r == found(self@, key@),
    {
        match self.position(key) {
            Some(i) => Some(self.entries[i].id),
            None => None,
        }
    }

    /// Records an image: moves it to the head if it is there, refreshing
    /// its time and keeping its id, or puts it at the head under `new_id`;
    /// then holds the index to its cap. Returns the id to store frames
    /// under and the ids that left the index.
    pub fn record(&mut self, key: ImageKey, new_id: u64, now_secs: u64) -> (r: Recorded)
        ensures
            final(self)@ == recorded(old(self)@, key@, new_id, now_secs),
            r.id == recorded_id(old(self)@, key@, new_id),
            r.refreshed == has_key(old(self)@, key@),
            r.evicted@ == evicted_ids(promoted(old(self)@, key@, new_id, now_secs)),
    {
        let (id, refreshed) = match self.position(&key) {
            Some(pos) => {
                let mut e = self.entries.remove(pos);
                let id = e.id;
                e.created_secs = now_secs;
                self.entries.insert(0, e);
                (id, true)
            },
            None => {
                self.entries.insert(0, CacheEntry { id: new_id, key, created_secs: now_secs });
                (new_id, false)
            },
        };
        let ghost full = self@;
        let mut evicted: Vec<u64> = Vec::new();
        while self.entries.len() > MAX_CACHED_IMAGES
            invariant
                self.entries.len() <= full.len(),
                self@ =~= full.take(self.entries.len() as int),
                self.entries.len() >= MAX_CACHED_IMAGES || self.entries.len() == full.len(),
                evicted@ =~= Seq::new(
                    (full.len() - self.entries.len()) as nat,
                    |k: int| full[full.len() - 1 - k].id,
                ),
            decreases self.entries.len(),
        {
            let ghost len = self.entries.len();
            let ghost prev = self@;
            let ghost prev_entries = self.entries@;
            match self.entries.pop() {
                Some(last) => {
                    assert(prev[len - 1] == prev_entries[len - 1]@);
                    evicted.push(last.id);
                },
                None => {},
            }
        }
        Recorded { id, refreshed, evicted }
    }
}

/// Records an image in the index; see [`CacheIndex::record`].
pub fn record_cached_image(index: &mut CacheIndex, key: ImageKey, new_id: u64, now_secs: u64) -> (r:
    Recorded)
    ensures
        final(index)@ == recorded(old(index)@, key@, new_id, now_secs),
        r.id == recorded_id(old(index)@, key@, new_id),
        r.refreshed == has_key(old(index)@, key@),
        r.evicted@ == evicted_ids(promoted(old(index)@, key@, new_id, now_secs)),
{
    index.record(key, new_id, now_secs)
}

/// The id recorded for a key, if the index holds it.
pub fn find_cached_entry_id(index: &CacheIndex, key: &ImageKey) -> (r: Option<u64>)
    ensures
        r == found(index@, key@),
{
    index.find(key)
}

/// Whether the index holds the key.
pub fn cached_image_matches(index: &CacheIndex, key: &ImageKey) -> (r: bool)
    ensures
        r == has_key(index@, key@),
{
    index.find(key).is_some()
}

/// The key of an image request for the file found at `expanded_path` with
/// the given size and modification time; nothing for a colour request.
pub fn compute_image_key(
    spec: &Spec,
    expanded_path: String,
    size: u64,
    mtime_secs: u64,
    mtime_nanos: u32,
) -> (r: Option<ImageKey>)
    ensures
        r is Some == spec is Image,
        r is Some ==> r.unwrap()@ == (ImageKeyView {
            path: expanded_path@,
            mode: spec->Image_mode,
            colour: spec->Image_colour,
            size,
            mtime_secs,
            mtime_nanos,
        }),
{
    match spec {
        Spec::Image { path: _, mode, colour, output: _, transition: _ } => Some(
            ImageKey {
                path: expanded_path,
                mode: *mode,
                colour: *colour,
                size,
                mtime_secs,
                mtime_nanos,
            },
        ),
        Spec::Colour { .. } => None,
    }
}

/// A recorded image is found again under the id it was recorded with, and
/// it stands at the head of the index.
pub proof fn lemma_find_after_record(
    entries: Seq<CacheEntryView>,
    key: ImageKeyView,
    new_id: u64,
    now_secs: u64,
)
    ensures
        found(recorded(entries, key, new_id, now_secs), key) == Some(
            recorded_id(entries, key, new_id),
        ),
        recorded(entries, key, new_id, now_secs).len() > 0,
        recorded(entries, key, new_id, now_secs)[0].key == key,
        recorded(entries, key, new_id, now_secs)[0].created_secs == now_secs,
{
    let after = recorded(entries, key, new_id, now_secs);
    if has_key(entries, key) {
        lemma_has_first_match(entries, key);
    }
    lemma_first_match_is(after, key, 0);
}

/// Recording one image leaves no other key in the index than were there:
/// a key that differs from the recorded one in any field (another size or
/// modification time of the file, say) and was not in the index is not in
/// it afterwards.
pub proof fn lemma_other_key_misses(
    entries: Seq<CacheEntryView>,
    key: ImageKeyView,
    other: ImageKeyView,
    new_id: u64,
    now_secs: u64,
)
    requires
        other != key,
        !has_key(entries, other),
    ensures
        found(recorded(entries, key, new_id, now_secs), other) is None,
{
    if has_key(entries, key) {
        lemma_has_first_match(entries, key);
    }
}

/// The index never holds more than its cap: after an image is recorded it
/// has one entry more if the image is new and there was room, else as many
/// as before or as the cap allows; and what leaves the index is named.
pub proof fn lemma_record_len(entries: Seq<CacheEntryView>, key: ImageKeyView, new_id: u64, now_secs: u64)
    ensures
        recorded(entries, key, new_id, now_secs).len() <= MAX_CACHED_IMAGES,
        !has_key(entries, key) && entries.len() < MAX_CACHED_IMAGES ==> recorded(
            entries,
            key,
            new_id,
            now_secs,
        ).len() == entries.len() + 1,
        !has_key(entries, key) && entries.len() >= MAX_CACHED_IMAGES ==> recorded(
            entries,
            key,
            new_id,
            now_secs,
        ).len() == MAX_CACHED_IMAGES && evicted_ids(promoted(entries, key, new_id, now_secs)).len()
            == entries.len() + 1 - MAX_CACHED_IMAGES && evicted_ids(
            promoted(entries, key, new_id, now_secs),
        )[0] == entries.last().id,
        has_key(entries, key) && entries.len() <= MAX_CACHED_IMAGES ==> recorded(
            entries,
            key,
            new_id,
            now_secs,
        ).len() == entries.len(),
{
    if has_key(entries, key) {
        lemma_has_first_match(entries, key);
    }
}

/// The keys of the images recorded one after another, starting from an
/// empty index, with the ids and times given.
pub open spec fn recorded_all(keys: Seq<ImageKeyView>, ids: Seq<u64>, times: Seq<u64>, n: int) -> Seq<
    CacheEntryView,
>
    decreases n,
{
    if n <= 0 {
        Seq::empty()
    } else {
        recorded(recorded_all(keys, ids, times, n - 1), keys[n - 1], ids[n - 1], times[n - 1])
    }
}

/// After `n` different images were recorded in an empty index it holds
/// exactly `min(5, n)` entries, the most recent first: entry `i` is the
/// image recorded `i` records ago.
pub proof fn lemma_cap_after_records(keys: Seq<ImageKeyView>, ids: Seq<u64>, times: Seq<u64>, n: int)
    requires
        0 <= n <= keys.len(),
        n <= ids.len(),
        n <= times.len(),
        forall|i: int, j: int| 0 <= i < j < n ==> keys[i] != keys[j],
    ensures
        recorded_all(keys, ids, times, n).len() == (if n <= MAX_CACHED_IMAGES {
            n
        } else {
            MAX_CACHED_IMAGES as int
        }),
        forall|i: int|
            0 <= i < recorded_all(keys, ids, times, n).len() ==> (#[trigger] recorded_all(
                keys,
                ids,
                times,
                n,
            )[i]) == (CacheEntryView {
                id: ids[n - 1 - i],
                key: keys[n - 1 - i],
                created_secs: times[n - 1 - i],
            }),
    decreases n,
{
    if n > 0 {
        lemma_cap_after_records(keys, ids, times, n - 1);
    }
}

/// The cache directory: `gesso` under the user's cache directory if one is
/// set, else `.cache/gesso` under the home directory if one is set, else
/// `gesso-cache` under the directory for temporary files.
pub open spec fn cache_dir(
    xdg_cache_home: Option<Seq<char>>,
    home: Option<Seq<char>>,
    temp_dir: Seq<char>,
) -> Seq<char> {
    match xdg_cache_home {
        Some(d) => joined(d, "gesso"@),
        None => match home {
            Some(h) => joined(joined(h, ".cache"@), "gesso"@),
            None => joined(temp_dir, "gesso-cache"@),
        },
    }
}

/// Works out the cache directory from the environment's values.
pub fn base_cache_dir(xdg_cache_home: Option<&str>, home: Option<&str>, temp_dir: &str) -> (p: String)
    ensures
        p@ == cache_dir(
            crate::spec::opt_str_chars(xdg_cache_home),
            crate::spec::opt_str_chars(home),
            temp_dir@,
        ),
{
    match xdg_cache_home {
        Some(d) => join_path(d, "gesso"),
        None => match home {
            Some(h) => {
                let dot_cache = join_path(h, ".cache");
                join_path(dot_cache.as_str(), "gesso")
            },
            None => join_path(temp_dir, "gesso-cache"),
        },
    }
}

/// The directory of all stored frames.
pub fn frames_dir(base: &str) -> (p: String)
    ensures
        p@ == joined(base@, "frames"@),
{
    join_path(base, "frames")
}

/// The directory of the frames of one entry: its id in decimal.
pub fn entry_dir(base: &str, entry_id: u64) -> (p: String)
    ensures
        p@ == joined(joined(base@, "frames"@), decimal(entry_id as nat)),
{
    let frames = frames_dir(base);
    let mut name = String::new();
    push_decimal(&mut name, entry_id);
    join_path(frames.as_str(), name.as_str())
}

/// Name of the file of the frame of one surface at one size.
pub open spec fn frame_file_name(surface_index: usize, w: u32, h: u32) -> Seq<char> {
    "si"@ + decimal(surface_index as nat) + "_w"@ + decimal(w as nat) + "_h"@ + decimal(h as nat)
        + ".xrgb"@
}

/// The file of the frame of surface `surface_index` at `w` by `h` under an
/// entry: `frames/<id>/si<si>_w<w>_h<h>.xrgb`.
pub fn frame_path(base: &str, entry_id: u64, surface_index: usize, w: u32, h: u32) -> (p: String)
    ensures
        p@ == joined(
            joined(joined(base@, "frames"@), decimal(entry_id as nat)),
            frame_file_name(surface_index, w, h),
        ),
{
    let dir = entry_dir(base, entry_id);
    let mut name = String::from_str("si");
    push_decimal(&mut name, surface_index as u64);
    name.append("_w");
    push_decimal(&mut name, w as u64);
    name.append("_h");
    push_decimal(&mut name, h as u64);
    name.append(".xrgb");
    join_path(dir.as_str(), name.as_str())
}

/// The file of the index.
pub fn cache_index_path(base: &str) -> (p: String)
    ensures
        p@ == joined(base@, "cache_index.json"@),
{
    join_path(base, "cache_index.json")
}

/// The file of the request applied last.
pub fn last_applied_path(base: &str) -> (p: String)
    ensures
        p@ == joined(base@, "last_applied.json"@),
{
    join_path(base, "last_applied.json")
}

/// The file of the single key that earlier versions kept.
pub fn last_image_path(base: &str) -> (p: String)
    ensures
        p@ == joined(base@, "last_image.json"@),
{
    join_path(base, "last_image.json")
}

/// The file of the id matched last.
pub fn last_match_path(base: &str) -> (p: String)
    ensures
        p@ == joined(base@, "last_match.json"@),
{
    join_path(base, "last_match.json")
}

/// The file that an atomic write of `path` fills before it renames it over
/// the target: the path with `.tmp` added.
pub fn tmp_path(path: &str) -> (p: String)
    ensures
        p@ == path@ + ".tmp"@,
{
    let mut p = String::from_str(path);
    p.append(".tmp");
    p
}

/// The order of the bytes of a stored pixel.
#[derive(Clone, Copy, Debug, PartialEq, Eq, Structural)]
pub enum ByteOrder {
    Little,
    Big,
}

/// Byte `k` (0 the least significant) of a pixel.
pub open spec fn byte_of(px: u32, k: int) -> u8 {
    if k == 0 {
        (px as int % 256) as u8
    } else if k == 1 {
        ((px as int / 256) % 256) as u8
    } else if k == 2 {
        ((px as int / 65536) % 256) as u8
    } else {
        (px as int / 16777216) as u8
    }
}

/// The pixel with the four bytes given, least significant first.
pub open spec fn word_of(b0: u8, b1: u8, b2: u8, b3: u8) -> u32 {
    (b0 as int + b1 as int * 256 + b2 as int * 65536 + b3 as int * 16777216) as u32
}

/// Place among the four bytes of a stored pixel of its byte `k`.
pub open spec fn place_of(order: ByteOrder, k: int) -> int {
    match order {
        ByteOrder::Little => k,
        ByteOrder::Big => 3 - k,
    }
}

/// The bytes of a frame: four per pixel, in the given order.
pub open spec fn encoded(frame: Seq<u32>, order: ByteOrder) -> Seq<u8> {
    Seq::new(4 * frame.len(), |i: int| byte_of(frame[i / 4], place_of(order, i % 4)))
}

/// The frame that `4 * n` bytes hold.
pub open spec fn decoded(bytes: Seq<u8>, order: ByteOrder) -> Seq<u32> {
    Seq::new(
        bytes.len() / 4,
        |i: int|
            word_of(
                bytes[4 * i + place_of(order, 0)],
                bytes[4 * i + place_of(order, 1)],
                bytes[4 * i + place_of(order, 2)],
                bytes[4 * i + place_of(order, 3)],
            ),
    )
}

/// `u32::from_ne_bytes` of the bytes 1, 0, 0, 0: the value 1 where the
/// machine stores the least significant byte first, the value 0x0100_0000
/// where it stores it last.
#[verifier::external_body]
fn native_one() -> (v: u32)
    ensures
        v == 1 || v == 0x0100_0000,
{
    u32::from_ne_bytes([1, 0, 0, 0])
}

/// The byte order of this machine: what its probe tells.
pub fn native_order() -> (order: ByteOrder) {
    order_of_probe(native_one())
}

/// The byte order that a probe tells. The probe is the machine's reading of
/// the bytes 1, 0, 0, 0 as one pixel: the value 1 means that the least
/// significant byte comes first, any other value that it comes last.
pub open spec fn probed_order(probe: u32) -> ByteOrder {
    if probe == 1 {
        ByteOrder::Little
    } else {
        ByteOrder::Big
    }
}

/// Tells the byte order from a probe of the machine.
pub fn order_of_probe(probe: u32) -> (order: ByteOrder)
    ensures
        order == probed_order(probe),
{
    if probe == 1 {
        ByteOrder::Little
    } else {
        ByteOrder::Big
    }
}

proof fn lemma_bytes(px: u32)
    ensures
        px & 0xff == byte_of(px, 0),
        (px >> 8) & 0xff == byte_of(px, 1),
        (px >> 16) & 0xff == byte_of(px, 2),
        (px >> 24) == byte_of(px, 3),
        word_of(byte_of(px, 0), byte_of(px, 1), byte_of(px, 2), byte_of(px, 3)) == px,
{
    assert(px & 0xff == px % 256) by (bit_vector);
    assert((px >> 8) & 0xff == (px / 256) % 256) by (bit_vector);
    assert((px >> 16) & 0xff == (px / 65536) % 256) by (bit_vector);
    assert((px >> 24) == px / 16777216) by (bit_vector);
    assert(px / 16777216 < 256) by (bit_vector);
    assert(px == px % 256 + ((px / 256) % 256) * 256 + ((px / 65536) % 256) * 65536 + (px
        / 16777216) * 16777216) by (bit_vector);
}

proof fn lemma_word(b0: u8, b1: u8, b2: u8, b3: u8)
    ensures
        (b0 as u32) | ((b1 as u32) << 8) | ((b2 as u32) << 16) | ((b3 as u32) << 24) == word_of(
            b0,
            b1,
            b2,
            b3,
        ),
{
    let x0 = b0 as u32;
    let x1 = b1 as u32;
    let x2 = b2 as u32;
    let x3 = b3 as u32;
    assert(x0 | (x1 << 8) | (x2 << 16) | (x3 << 24) == x0 + x1 * 256 + x2 * 65536 + x3 * 16777216)
        by (bit_vector)
        requires
            x0 < 256,
            x1 < 256,
            x2 < 256,
            x3 < 256,
    ;
}

/// The bytes of a frame for storage, four per pixel.
pub fn encode_frame(frame: &[u32], order: ByteOrder) -> (bytes: Vec<u8>)
    ensures
        bytes@ == encoded(frame@, order),
{
    let mut bytes: Vec<u8> = Vec::new();
    let mut i: usize = 0;
    while i < frame.len()
        invariant
            i <= frame.len(),
            bytes.len() == 4 * i,
            forall|k: int|
                0 <= k < 4 * i ==> bytes[k] == byte_of(frame[k / 4], place_of(order, k % 4)),
        decreases frame.len() - i,
    {
        let px = frame[i];
        proof {
            lemma_bytes(px);
        }
        let b0 = (px & 0xff) as u8;
        let b1 = ((px >> 8) & 0xff) as u8;
        let b2 = ((px >> 16) & 0xff) as u8;
        let b3 = (px >> 24) as u8;
        match order {
            ByteOrder::Little => {
                bytes.push(b0);
                bytes.push(b1);
                bytes.push(b2);
                bytes.push(b3);
            },
            ByteOrder::Big => {
                bytes.push(b3);
                bytes.push(b2);
                bytes.push(b1);
                bytes.push(b0);
            },
        }
        i += 1;
    }
    bytes
}

/// Reads a stored frame of `w` by `h` pixels. Bytes of any other length
/// than `w * h * 4` are no frame.
pub fn decode_frame(bytes: &[u8], w: u32, h: u32, order: ByteOrder) -> (frame: Option<Vec<u32>>)
    ensures
        frame is Some == (bytes.len() == w as int * h as int * 4),
        frame is Some ==> frame.unwrap()@ == decoded(bytes@, order) && frame.unwrap().len()
            == w as int * h as int,
{
    assert(0 <= w as int * h as int <= 0xFFFF_FFFF * 0xFFFF_FFFF) by (nonlinear_arith)
        requires
            0 <= w <= 0xFFFF_FFFF,
            0 <= h <= 0xFFFF_FFFF,
    ;
    let want: u128 = (w as u128) * (h as u128) * 4;
    if bytes.len() as u128 != want {
        return None;
    }
    let n: usize = bytes.len() / 4;
    let mut frame: Vec<u32> = Vec::new();
    let mut i: usize = 0;
    while i < n
        invariant
            i <= n,
            n == bytes.len() / 4,
            bytes.len() == 4 * n,
            frame.len() == i,
            forall|k: int| 0 <= k < i ==> frame[k] == decoded(bytes@, order)[k],
        decreases n - i,
    {
        let at = 4 * i;
        let (b0, b1, b2, b3) = match order {
            ByteOrder::Little => (bytes[at], bytes[at + 1], bytes[at + 2], bytes[at + 3]),
            ByteOrder::Big => (bytes[at + 3], bytes[at + 2], bytes[at + 1], bytes[at]),
        };
        proof {
            lemma_word(b0, b1, b2, b3);
        }
        frame.push((b0 as u32) | ((b1 as u32) << 8) | ((b2 as u32) << 16) | ((b3 as u32) << 24));
        i += 1;
    }
    Some(frame)
}

/// The bytes of a frame for storage in this machine's byte order.
pub fn store_frame(frame: &[u32]) -> (bytes: Vec<u8>)
    ensures
        bytes@ == encoded(frame@, ByteOrder::Little) || bytes@ == encoded(frame@, ByteOrder::Big),
{
    encode_frame(frame, native_order())
}

/// Reads a frame of `w` by `h` pixels stored in this machine's byte order.
/// Bytes of any other length than `w * h * 4` are no frame.
pub fn load_frame(bytes: &[u8], w: u32, h: u32) -> (frame: Option<Vec<u32>>)
    ensures
        frame is Some == (bytes.len() == w as int * h as int * 4),
        frame is Some ==> frame.unwrap().len() == w as int * h as int && (frame.unwrap()@
            == decoded(bytes@, ByteOrder::Little) || frame.unwrap()@ == decoded(
            bytes@,
            ByteOrder::Big,
        )),
{
    decode_frame(bytes, w, h, native_order())
}

/// What is stored is read back: the bytes of a frame of `w * h` pixels
/// have the length that reading demands, and decode to the same frame.
pub proof fn lemma_store_then_load(frame: Seq<u32>, order: ByteOrder)
    ensures
        encoded(frame, order).len() == 4 * frame.len(),
        decoded(encoded(frame, order), order) == frame,
{
    let bytes = encoded(frame, order);
    assert forall|i: int| 0 <= i < frame.len() implies decoded(bytes, order)[i] == frame[i] by {
        lemma_bytes(frame[i]);
        assert((4 * i + 0) / 4 == i && (4 * i + 1) / 4 == i && (4 * i + 2) / 4 == i && (4 * i + 3)
            / 4 == i);
        assert((4 * i + 0) % 4 == 0 && (4 * i + 1) % 4 == 1 && (4 * i + 2) % 4 == 2 && (4 * i + 3)
            % 4 == 3);
    }
    assert(decoded(bytes, order) =~= frame);
}

} // verus!
