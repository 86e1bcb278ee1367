use gesso::spec::{Mode, Rgb, Spec, Transition, TransitionSpec, WipeFrom};
use gesso::wallpaper::cache::{
    base_cache_dir, cache_index_path, cached_image_matches, compute_image_key, decode_frame,
    encode_frame, entry_dir, find_cached_entry_id, frame_path, frames_dir, last_applied_path,
    last_image_path, last_match_path, load_frame, native_order, order_of_probe,
    record_cached_image, store_frame,
    tmp_path, ByteOrder, CacheEntry, CacheIndex, ImageKey, MAX_CACHED_IMAGES,
};

fn key(path: &str) -> ImageKey {
    ImageKey {
        path: path.to_string(),
        mode: Mode::Fill,
        colour: Rgb { r: 0, g: 0, b: 0 },
        size: 1000,
        mtime_secs: 1_700_000_000,
        mtime_nanos: 5,
    }
}

fn ids(index: &CacheIndex) -> Vec<u64> {
    index.entries.iter().map(|e| e.id).collect()
}

#[test]
fn recorded_image_is_found_under_its_id() {
    let mut index = CacheIndex::new();
    assert_eq!(index.find(&key("/a.png")), None);
    let r = index.record(key("/a.png"), 11, 100);
    assert_eq!((r.id, r.refreshed, r.evicted.clone()), (11, false, vec![]));
    assert_eq!(index.find(&key("/a.png")), Some(11));
    assert_eq!(find_cached_entry_id(&index, &key("/a.png")), Some(11));
    assert!(cached_image_matches(&index, &key("/a.png")));
    assert!(!cached_image_matches(&index, &key("/b.png")));
    assert_eq!(
        index.entries,
        vec![CacheEntry { id: 11, key: key("/a.png"), created_secs: 100 }]
    );
}

#[test]
fn any_changed_field_is_a_miss() {
    let mut index = CacheIndex::new();
    index.record(key("/a.png"), 11, 100);
    assert_eq!(index.find(&ImageKey { size: 1001, ..key("/a.png") }), None);
    assert_eq!(index.find(&ImageKey { mtime_secs: 1_700_000_001, ..key("/a.png") }), None);
    assert_eq!(index.find(&ImageKey { mtime_nanos: 6, ..key("/a.png") }), None);
    assert_eq!(index.find(&ImageKey { mode: Mode::Fit, ..key("/a.png") }), None);
    assert_eq!(index.find(&ImageKey { colour: Rgb { r: 0, g: 0, b: 1 }, ..key("/a.png") }), None);
    assert_eq!(index.find(&key("/a.png ")), None);
    assert!(!key("/a.png").same(&ImageKey { size: 1001, ..key("/a.png") }));
    assert!(key("/a.png").same(&key("/a.png")));
    // The edited file is a new image with an id of its own.
    let r = index.record(ImageKey { size: 1001, ..key("/a.png") }, 12, 101);
    assert_eq!((r.id, r.refreshed), (12, false));
    assert_eq!(ids(&index), vec![12, 11]);
}

#[test]
fn recording_again_refreshes_and_moves_to_the_head() {
    let mut index = CacheIndex::new();
    index.record(key("/a.png"), 1, 100);
    index.record(key("/b.png"), 2, 101);
    index.record(key("/c.png"), 3, 102);
    assert_eq!(ids(&index), vec![3, 2, 1]);
    let r = record_cached_image(&mut index, key("/a.png"), 99, 200);
    assert_eq!((r.id, r.refreshed, r.evicted.clone()), (1, true, vec![]));
    assert_eq!(ids(&index), vec![1, 3, 2]);
    assert_eq!(index.entries[0].created_secs, 200);
    assert_eq!(index.entries[1].created_secs, 102);
    assert_eq!(index.find(&key("/a.png")), Some(1));
}

#[test]
fn the_index_keeps_the_five_most_recent() {
    let mut index = CacheIndex::new();
    for n in 1..=8u64 {
        let r = index.record(key(&format!("/{n}.png")), n, 100 + n);
        let expected = std::cmp::min(MAX_CACHED_IMAGES, n as usize);
        assert_eq!(index.entries.len(), expected);
        if n > 5 {
            assert_eq!(r.evicted, vec![n - 5]);
            assert_eq!(index.find(&key(&format!("/{}.png", n - 5))), None);
        } else {
            assert_eq!(r.evicted, Vec::<u64>::new());
        }
    }
    assert_eq!(ids(&index), vec![8, 7, 6, 5, 4]);
}

#[test]
fn an_overlong_index_is_cut_to_the_cap() {
    let entries: Vec<CacheEntry> =
        (1..=8u64).map(|n| CacheEntry { id: n, key: key(&format!("/{n}.png")), created_secs: n }).collect();
    let mut index = CacheIndex { entries };
    let r = index.record(key("/3.png"), 77, 500);
    assert_eq!((r.id, r.refreshed), (3, true));
    assert_eq!(ids(&index), vec![3, 1, 2, 4, 5]);
    assert_eq!(r.evicted, vec![8, 7, 6]);
}

#[test]
fn key_of_a_request() {
    let t = TransitionSpec { kind: Transition::Fade, duration: 10, wipe_from: WipeFrom::Left };
    let image = Spec::Image {
        path: "~/wall.png".to_string(),
        mode: Mode::Tile,
        colour: Rgb { r: 4, g: 5, b: 6 },
        output: None,
        transition: t,
    };
    assert_eq!(
        compute_image_key(&image, "/home/u/wall.png".to_string(), 9, 8, 7),
        Some(ImageKey {
            path: "/home/u/wall.png".to_string(),
            mode: Mode::Tile,
            colour: Rgb { r: 4, g: 5, b: 6 },
            size: 9,
            mtime_secs: 8,
            mtime_nanos: 7,
        })
    );
    let colour = Spec::Colour { colour: Rgb { r: 4, g: 5, b: 6 }, output: None, transition: t };
    assert_eq!(compute_image_key(&colour, "/x".to_string(), 9, 8, 7), None);
}

#[test]
fn cache_files_have_their_places() {
    assert_eq!(base_cache_dir(Some("/xdg"), Some("/home/u"), "/tmp"), "/xdg/gesso");
    assert_eq!(base_cache_dir(None, Some("/home/u"), "/tmp"), "/home/u/.cache/gesso");
    assert_eq!(base_cache_dir(None, None, "/tmp"), "/tmp/gesso-cache");
    assert_eq!(base_cache_dir(Some("/xdg/"), None, "/tmp"), "/xdg/gesso");
    assert_eq!(frames_dir("/c"), "/c/frames");
    assert_eq!(entry_dir("/c", 0), "/c/frames/0");
    assert_eq!(entry_dir("/c", 1_722_333_444_555_666_777), "/c/frames/1722333444555666777");
    assert_eq!(entry_dir("/c", u64::MAX), "/c/frames/18446744073709551615");
    assert_eq!(frame_path("/c", 42, 1, 1920, 1080), "/c/frames/42/si1_w1920_h1080.xrgb");
    assert_eq!(frame_path("/c", 7, 0, 1, 10), "/c/frames/7/si0_w1_h10.xrgb");
    assert_eq!(cache_index_path("/c"), "/c/cache_index.json");
    assert_eq!(last_applied_path("/c"), "/c/last_applied.json");
    assert_eq!(last_image_path("/c"), "/c/last_image.json");
    assert_eq!(last_match_path("/c"), "/c/last_match.json");
    assert_eq!(tmp_path("/c/cache_index.json"), "/c/cache_index.json.tmp");
}

#[test]
fn frames_are_stored_four_bytes_a_pixel() {
    let frame = [0x1122_3344u32, 0x0000_00FF];
    assert_eq!(
        encode_frame(&frame, ByteOrder::Little),
        vec![0x44, 0x33, 0x22, 0x11, 0xFF, 0, 0, 0]
    );
    assert_eq!(encode_frame(&frame, ByteOrder::Big), vec![0x11, 0x22, 0x33, 0x44, 0, 0, 0, 0xFF]);
    assert_eq!(encode_frame(&[], ByteOrder::Big), Vec::<u8>::new());
    assert_eq!(
        decode_frame(&[0x44, 0x33, 0x22, 0x11, 0xFF, 0, 0, 0], 2, 1, ByteOrder::Little),
        Some(frame.to_vec())
    );
    assert_eq!(
        decode_frame(&[0x44, 0x33, 0x22, 0x11, 0xFF, 0, 0, 0], 1, 2, ByteOrder::Big),
        Some(vec![0x4433_2211, 0xFF00_0000])
    );
}

#[test]
fn a_frame_of_the_wrong_size_is_no_frame() {
    assert_eq!(decode_frame(&[1, 2, 3, 4], 2, 1, ByteOrder::Little), None);
    assert_eq!(decode_frame(&[1, 2, 3, 4, 5], 1, 1, ByteOrder::Little), None);
    assert_eq!(decode_frame(&[1, 2, 3], 1, 1, ByteOrder::Little), None);
    assert_eq!(decode_frame(&[], 0, 9, ByteOrder::Little), Some(vec![]));
    assert_eq!(decode_frame(&[], 1, 1, ByteOrder::Big), None);
    assert_eq!(load_frame(&[0; 12], 2, 2), None);
    assert_eq!(load_frame(&[0; 16], 2, 2), Some(vec![0; 4]));
    assert_eq!(decode_frame(&[0; 8], u32::MAX, u32::MAX, ByteOrder::Big), None);
}

#[test]
fn what_is_stored_is_loaded_again() {
    let frame: Vec<u32> = (0..64u32).map(|i| i.wrapping_mul(0x0101_0307) ^ 0x00A5_5A00).collect();
    for order in [ByteOrder::Little, ByteOrder::Big] {
        let bytes = encode_frame(&frame, order);
        assert_eq!(bytes.len(), 256);
        assert_eq!(decode_frame(&bytes, 8, 8, order), Some(frame.clone()));
        assert_eq!(decode_frame(&bytes, 8, 7, order), None);
    }
    let bytes = store_frame(&frame);
    assert_eq!(load_frame(&bytes, 16, 4), Some(frame.clone()));
    // The stored form is this machine's own.
    let native: Vec<u8> = frame.iter().flat_map(|px| px.to_ne_bytes()).collect();
    assert_eq!(bytes, native);
    assert_eq!(
        native_order() == ByteOrder::Little,
        u32::from_ne_bytes([1, 0, 0, 0]) == 1
    );
}

#[test]
fn the_probe_tells_the_byte_order() {
    assert_eq!(order_of_probe(1), ByteOrder::Little);
    assert_eq!(order_of_probe(0x0100_0000), ByteOrder::Big);
    assert_eq!(order_of_probe(0), ByteOrder::Big);
    assert_eq!(native_order(), order_of_probe(u32::from_ne_bytes([1, 0, 0, 0])));
    // A frame stored in the machine's order reads back in that order only.
    let bytes = store_frame(&[0x1122_3344]);
    assert_eq!(decode_frame(&bytes, 1, 1, native_order()), Some(vec![0x1122_3344]));
    let other = if native_order() == ByteOrder::Little { ByteOrder::Big } else { ByteOrder::Little };
    assert_eq!(decode_frame(&bytes, 1, 1, other), Some(vec![0x4433_2211]));
}
