use gesso::spec::WipeFrom;
use gesso::wallpaper::buffers::{paint_into, PaintOp};
use gesso::wallpaper::paint::{
    lerp_xrgb_u8_fast, paint_blend_frame_to_frame_fast, paint_blend_frame_to_solid_fast,
    paint_frame_u32, paint_solid_u32, paint_wipe_frame_to_frame_dir,
    paint_wipe_frame_to_solid_fast,
};

fn lerp(x: u32, y: u32, t: u32) -> u32 {
    (x * (256 - t) + y * t) / 256
}

fn blend(a: u32, b: u32, t: u32) -> u32 {
    let r = lerp((a >> 16) & 0xFF, (b >> 16) & 0xFF, t);
    let g = lerp((a >> 8) & 0xFF, (b >> 8) & 0xFF, t);
    let bl = lerp(a & 0xFF, b & 0xFF, t);
    (r << 16) | (g << 8) | bl
}

#[test]
fn blend_endpoints_copy_the_operands() {
    let a = vec![0x00112233u32, 0xFF445566, 0x00778899];
    let b = vec![0x00AABBCCu32, 0x00DDEEFF, 0xFF010203];
    let mut dst = vec![0u32; 3];
    paint_blend_frame_to_frame_fast(&mut dst, &a, &b, 0);
    assert_eq!(dst, a);
    paint_blend_frame_to_frame_fast(&mut dst, &a, &b, 256);
    assert_eq!(dst, b);
    paint_blend_frame_to_frame_fast(&mut dst, &a, &b, 300);
    assert_eq!(dst, b);
}

#[test]
fn blend_is_the_per_channel_mean() {
    assert_eq!(lerp_xrgb_u8_fast(0x00FF0000, 0x000000FF, 128, 128), 0x007F007F);
    assert_eq!(lerp_xrgb_u8_fast(0xFF102030, 0xFF405060, 64, 192), 0x001C2C3C);
    assert_eq!(lerp_xrgb_u8_fast(0x00000000, 0x00FFFFFF, 1, 255), 0x00000000);
    assert_eq!(lerp_xrgb_u8_fast(0x00000000, 0x00FFFFFF, 255, 1), 0x00FEFEFE);
    assert_eq!(lerp_xrgb_u8_fast(0x00FFFFFF, 0x00FFFFFF, 77, 179), 0x00FFFFFF);
    let mut dst = vec![0u32; 1];
    paint_blend_frame_to_frame_fast(&mut dst, &[0xFF102030], &[0xFF405060], 64);
    assert_eq!(dst, vec![0x001C2C3C]);
}

#[test]
fn blend_runs_in_chunks_and_a_tail() {
    let a: Vec<u32> = (0..19u32).map(|i| 0x00010203u32.wrapping_mul(i + 1) & 0x00FF_FFFF).collect();
    let b: Vec<u32> = (0..19u32).map(|i| 0x00F0E0D0u32.wrapping_sub(i * 0x00030201)).collect();
    for t in [1u16, 37, 128, 200, 255] {
        let mut dst = vec![0xDEAD_BEEFu32; 19];
        paint_blend_frame_to_frame_fast(&mut dst, &a, &b, t);
        for i in 0..19 {
            assert_eq!(dst[i], blend(a[i], b[i], t as u32));
        }
        let mut solid = vec![0xDEAD_BEEFu32; 19];
        paint_blend_frame_to_solid_fast(&mut solid, &a, 0x00336699, t);
        for i in 0..19 {
            assert_eq!(solid[i], blend(a[i], 0x00336699, t as u32));
        }
    }
}

#[test]
fn blend_is_monotone_along_t() {
    for (x, y) in [(10u32, 200u32), (200, 10), (0, 255), (255, 0), (77, 77)] {
        let mut previous = x;
        for t in 0..=256u32 {
            let v = if t == 256 {
                y
            } else {
                lerp_xrgb_u8_fast(x << 8, y << 8, t, 256 - t) >> 8
            };
            if x <= y {
                assert!(x <= previous && previous <= v && v <= y);
            } else {
                assert!(x >= previous && previous >= v && v >= y);
            }
            previous = v;
        }
    }
}

#[test]
fn blend_clips_to_the_shortest_operand() {
    let mut dst = vec![7u32; 5];
    paint_blend_frame_to_frame_fast(&mut dst, &[1, 2, 3], &[9, 9, 9, 9], 256);
    assert_eq!(dst, vec![9, 9, 9, 7, 7]);
    let mut dst = vec![7u32; 2];
    paint_blend_frame_to_frame_fast(&mut dst, &[1, 2, 3], &[9, 9, 9, 9], 0);
    assert_eq!(dst, vec![1, 2]);
    let mut dst: Vec<u32> = Vec::new();
    paint_blend_frame_to_frame_fast(&mut dst, &[1], &[2], 100);
    assert_eq!(dst, Vec::<u32>::new());
}

#[test]
fn blend_to_solid_endpoints() {
    let mut dst = vec![7u32; 4];
    paint_blend_frame_to_solid_fast(&mut dst, &[1, 2, 3], 0x00ABCDEF, 0);
    assert_eq!(dst, vec![1, 2, 3, 7]);
    paint_blend_frame_to_solid_fast(&mut dst, &[1, 2, 3], 0x00ABCDEF, 256);
    assert_eq!(dst, vec![0x00ABCDEF, 0x00ABCDEF, 0x00ABCDEF, 7]);
}

#[test]
fn wipe_left_moves_the_seam() {
    let from = vec![0u32; 4];
    let to = vec![0xAAu32, 0xBB, 0xCC, 0xDD];
    let mut dst = vec![0xFFu32; 4];
    paint_wipe_frame_to_frame_dir(&mut dst, 4, 1, &from, &to, 0, WipeFrom::Left);
    assert_eq!(dst, vec![0, 0, 0, 0]);
    paint_wipe_frame_to_frame_dir(&mut dst, 4, 1, &from, &to, 128, WipeFrom::Left);
    assert_eq!(dst, vec![0xAA, 0xBB, 0, 0]);
    paint_wipe_frame_to_frame_dir(&mut dst, 4, 1, &from, &to, 256, WipeFrom::Left);
    assert_eq!(dst, vec![0xAA, 0xBB, 0xCC, 0xDD]);
}

#[test]
fn wipe_right_moves_the_seam_from_the_other_edge() {
    let from = vec![0u32; 4];
    let to = vec![0xAAu32, 0xBB, 0xCC, 0xDD];
    let mut dst = vec![0xFFu32; 4];
    paint_wipe_frame_to_frame_dir(&mut dst, 4, 1, &from, &to, 0, WipeFrom::Right);
    assert_eq!(dst, vec![0, 0, 0, 0]);
    paint_wipe_frame_to_frame_dir(&mut dst, 4, 1, &from, &to, 128, WipeFrom::Right);
    assert_eq!(dst, vec![0, 0, 0xCC, 0xDD]);
    paint_wipe_frame_to_frame_dir(&mut dst, 4, 1, &from, &to, 64, WipeFrom::Right);
    assert_eq!(dst, vec![0, 0, 0, 0xDD]);
    paint_wipe_frame_to_frame_dir(&mut dst, 4, 1, &from, &to, 256, WipeFrom::Right);
    assert_eq!(dst, vec![0xAA, 0xBB, 0xCC, 0xDD]);
}

#[test]
fn wipe_splits_every_row_at_the_same_column() {
    let from = vec![1u32, 2, 3, 4, 5, 6];
    let to = vec![11u32, 12, 13, 14, 15, 16];
    // Three columns at tt = 100: (3 * 100) / 256 = 1 column of the target.
    let mut dst = vec![0u32; 6];
    paint_wipe_frame_to_frame_dir(&mut dst, 3, 2, &from, &to, 100, WipeFrom::Left);
    assert_eq!(dst, vec![11, 2, 3, 14, 5, 6]);
    paint_wipe_frame_to_frame_dir(&mut dst, 3, 2, &from, &to, 100, WipeFrom::Right);
    assert_eq!(dst, vec![1, 2, 13, 4, 5, 16]);
    // At tt = 255 the last column still shows the source: (3 * 255) / 256 = 2.
    paint_wipe_frame_to_frame_dir(&mut dst, 3, 2, &from, &to, 255, WipeFrom::Left);
    assert_eq!(dst, vec![11, 12, 3, 14, 15, 6]);
}

#[test]
fn wipe_without_a_size_does_nothing() {
    let mut dst = vec![5u32; 4];
    paint_wipe_frame_to_frame_dir(&mut dst, 0, 4, &[1, 1, 1, 1], &[2, 2, 2, 2], 128, WipeFrom::Left);
    assert_eq!(dst, vec![5; 4]);
    paint_wipe_frame_to_frame_dir(&mut dst, 4, 0, &[1, 1, 1, 1], &[2, 2, 2, 2], 256, WipeFrom::Left);
    assert_eq!(dst, vec![5; 4]);
    paint_wipe_frame_to_solid_fast(&mut dst, 0, 0, &[1, 1, 1, 1], 9, 256, WipeFrom::Right);
    assert_eq!(dst, vec![5; 4]);
}

#[test]
fn wipe_writes_whole_rows_only() {
    // Less than one row available: nothing is written.
    let mut dst = vec![5u32; 2];
    paint_wipe_frame_to_frame_dir(&mut dst, 4, 1, &[1, 1, 1, 1], &[2, 2, 2, 2], 256, WipeFrom::Left);
    assert_eq!(dst, vec![5, 5]);
    // Five pixels of a 2 by 3 frame: two rows, the fifth pixel is left.
    let mut dst = vec![5u32; 5];
    paint_wipe_frame_to_frame_dir(&mut dst, 2, 3, &[1; 6], &[2; 6], 128, WipeFrom::Left);
    assert_eq!(dst, vec![2, 1, 2, 1, 5]);
    // The shortest operand decides.
    let mut dst = vec![5u32; 6];
    paint_wipe_frame_to_frame_dir(&mut dst, 2, 3, &[1; 6], &[2; 3], 256, WipeFrom::Left);
    assert_eq!(dst, vec![2, 2, 5, 5, 5, 5]);
}

#[test]
fn wipe_to_solid_fills_the_wiped_columns() {
    let from = vec![1u32, 2, 3, 4, 5, 6, 7, 8];
    let mut dst = vec![0u32; 8];
    paint_wipe_frame_to_solid_fast(&mut dst, 4, 2, &from, 0x99, 0, WipeFrom::Left);
    assert_eq!(dst, from);
    paint_wipe_frame_to_solid_fast(&mut dst, 4, 2, &from, 0x99, 128, WipeFrom::Left);
    assert_eq!(dst, vec![0x99, 0x99, 3, 4, 0x99, 0x99, 7, 8]);
    paint_wipe_frame_to_solid_fast(&mut dst, 4, 2, &from, 0x99, 192, WipeFrom::Right);
    assert_eq!(dst, vec![1, 0x99, 0x99, 0x99, 5, 0x99, 0x99, 0x99]);
    paint_wipe_frame_to_solid_fast(&mut dst, 4, 2, &from, 0x99, 256, WipeFrom::Right);
    assert_eq!(dst, vec![0x99; 8]);
}

#[test]
fn blit_copies_and_clips() {
    let mut dst = vec![0u32; 4];
    paint_frame_u32(&mut dst, &[1, 2]);
    assert_eq!(dst, vec![1, 2, 0, 0]);
    paint_frame_u32(&mut dst, &[9, 8, 7, 6, 5]);
    assert_eq!(dst, vec![9, 8, 7, 6]);
    paint_solid_u32(&mut dst, 3);
    assert_eq!(dst, vec![3; 4]);
}

#[test]
fn paint_dispatches_to_the_kernels() {
    let from = [1u32, 2, 3, 4];
    let to = [11u32, 12, 13, 14];
    let mut dst = vec![0u32; 4];
    paint_into(&mut dst, 2, 2, &PaintOp::Frame { frame: &to });
    assert_eq!(dst, to);
    paint_into(&mut dst, 2, 2, &PaintOp::Solid { px: 5 });
    assert_eq!(dst, vec![5; 4]);
    paint_into(&mut dst, 2, 2, &PaintOp::BlendFrames { from: &from, to: &to, tt: 0 });
    assert_eq!(dst, from);
    paint_into(&mut dst, 2, 2, &PaintOp::BlendToSolid { from: &from, to_px: 8, tt: 256 });
    assert_eq!(dst, vec![8; 4]);
    paint_into(&mut dst, 2, 2, &PaintOp::WipeFrames { from: &from, to: &to, tt: 128, wipe_from: WipeFrom::Left });
    assert_eq!(dst, vec![11, 2, 13, 4]);
    paint_into(&mut dst, 2, 2, &PaintOp::WipeToSolid { from: &from, to_px: 8, tt: 128, wipe_from: WipeFrom::Right });
    assert_eq!(dst, vec![1, 8, 3, 8]);
}
