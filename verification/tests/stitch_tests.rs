use asnap::stitch::{compare_strip, find_overlap_rows, frame_contributions, stitch, Frame};

/// A frame whose row `y` is painted with content row `first + y`: each
/// content row has its own colour.
fn band(width: u32, height: u32, first: u32) -> Frame {
    let mut rgba = Vec::new();
    for y in 0..height {
        let v = first + y;
        for _ in 0..width {
            rgba.push((v % 251) as u8);
            rgba.push((v * 7 % 253) as u8);
            rgba.push((v * 13 % 255) as u8);
            rgba.push(255);
        }
    }
    Frame { width, height, rgba }
}

fn solid(width: u32, height: u32, v: u8) -> Frame {
    Frame { width, height, rgba: vec![v; (width * height * 4) as usize] }
}

fn pixel(f: &Frame, x: u32, y: u32) -> [u8; 4] {
    let i = ((y * f.width + x) * 4) as usize;
    [f.rgba[i], f.rgba[i + 1], f.rgba[i + 2], f.rgba[i + 3]]
}

#[test]
fn compare_identical_strips_is_zero() {
    let a = band(10, 20, 0);
    assert_eq!(compare_strip(&a, 5, &a, 5, 4, 10), 0);
}

#[test]
fn compare_strip_exact_mean() {
    let a = solid(2, 2, 10);
    let b = solid(2, 2, 13);
    // Every sample differs by 3 in each of R, G, B: 3 * 9 = 27.
    assert_eq!(compare_strip(&a, 0, &b, 0, 2, 2), 27);
}

#[test]
fn compare_strip_skips_rows_outside() {
    let a = solid(2, 2, 0);
    let b = solid(2, 2, 1);
    // Only dy = 0 exists in both frames.
    assert_eq!(compare_strip(&a, 1, &b, 0, 5, 2), 3);
    // No sample at all.
    assert_eq!(compare_strip(&a, 2, &b, 0, 3, 2), u64::MAX);
    assert_eq!(compare_strip(&a, 0, &b, 0, 0, 2), u64::MAX);
    assert_eq!(compare_strip(&a, 0, &b, 0, 2, 0), u64::MAX);
}

#[test]
fn compare_strip_samples_every_24th_column() {
    // 48 columns: step 2, so only even columns are sampled.
    let a = solid(48, 1, 0);
    let mut b = solid(48, 1, 0);
    for x in (1..48).step_by(2) {
        let i = x * 4;
        b.rgba[i] = 200;
    }
    assert_eq!(compare_strip(&a, 0, &b, 0, 1, 48), 0);
    b.rgba[0] = 12;
    // One sample of 24 differs by 12 in red: 144 / 24 = 6.
    assert_eq!(compare_strip(&a, 0, &b, 0, 1, 48), 6);
}

#[test]
fn overlap_of_scrolled_frames() {
    // Frame b starts 20 content rows below frame a: the template (last 8
    // rows of a, content rows 32..40) is found 12 rows into b.
    let a = band(16, 40, 0);
    let b = band(16, 40, 20);
    assert_eq!(find_overlap_rows(&a, &b), 20);
}

#[test]
fn overlap_of_unrelated_frames_is_first_match() {
    // The largest possible error, 3 * 255^2, stays under the threshold, so
    // the first candidate row is taken: the strip alone overlaps.
    let a = solid(8, 40, 0);
    let b = solid(8, 50, 255);
    assert_eq!(compare_strip(&a, 32, &b, 0, 8, 8), 195075);
    assert_eq!(find_overlap_rows(&a, &b), 8);
}

#[test]
fn overlap_of_short_next_frame() {
    // Template of 8 rows does not fit in a 5-row frame: no candidate.
    let a = band(4, 40, 0);
    let b = band(4, 5, 0);
    assert_eq!(find_overlap_rows(&a, &b), 2);
}

#[test]
fn contributions_and_stitch() {
    let frames = vec![band(16, 40, 0), band(16, 40, 20), band(16, 40, 45)];
    assert_eq!(frame_contributions(&frames), vec![40, 20, 25]);
    let out = stitch(frames);
    assert_eq!(out.width, 16);
    assert_eq!(out.height, 85);
    assert_eq!(out.rgba.len(), 16 * 85 * 4);
    let whole = band(16, 85, 0);
    assert_eq!(out.rgba, whole.rgba);
}

#[test]
fn stitch_single_frame_is_unchanged() {
    let f = band(3, 7, 5);
    let copy = Frame { width: f.width, height: f.height, rgba: f.rgba.clone() };
    let out = stitch(vec![f]);
    assert_eq!(out.width, copy.width);
    assert_eq!(out.height, copy.height);
    assert_eq!(out.rgba, copy.rgba);
}

#[test]
fn stitch_narrow_frame_leaves_transparent_columns() {
    let a = band(6, 40, 0);
    let b = band(4, 40, 20);
    assert_eq!(find_overlap_rows(&a, &b), 20);
    let out = stitch(vec![a, b]);
    assert_eq!(out.width, 6);
    assert_eq!(out.height, 60);
    let whole = band(6, 60, 0);
    for y in 0..60 {
        for x in 0..6 {
            if y >= 40 && x >= 4 {
                assert_eq!(pixel(&out, x, y), [0, 0, 0, 0]);
            } else {
                assert_eq!(pixel(&out, x, y), pixel(&whole, x, y));
            }
        }
    }
}

#[test]
fn stitch_unrelated_frames_drops_strip() {
    let a = solid(2, 40, 0);
    let b = solid(2, 40, 200);
    let out = stitch(vec![a, b]);
    assert_eq!(out.height, 72);
    assert_eq!(pixel(&out, 1, 39), [0, 0, 0, 0]);
    assert_eq!(pixel(&out, 1, 40), [200, 200, 200, 200]);
}

#[test]
fn stitch_short_frame_keeps_lower_half() {
    let a = band(2, 40, 0);
    let b = solid(2, 5, 9);
    let out = stitch(vec![a, b]);
    assert_eq!(out.height, 43);
    assert_eq!(pixel(&out, 0, 40), [9, 9, 9, 9]);
}

#[test]
fn strip_error_is_symmetric() {
    let a = band(30, 20, 0);
    let b = band(30, 20, 7);
    assert_eq!(compare_strip(&a, 3, &b, 5, 9, 30), compare_strip(&b, 5, &a, 3, 9, 30));
    assert!(compare_strip(&a, 3, &b, 5, 9, 30) > 0);
}

#[test]
fn strip_against_itself_is_zero() {
    let a = band(50, 20, 3);
    assert_eq!(compare_strip(&a, 4, &a, 4, 30, 50), 0);
}

#[test]
fn scrolled_frames_overlap_by_remaining_rows() {
    // The template (last 8 rows) matches 32 - k rows into b, which must lie
    // in the 30-row search window: k >= 3.
    for k in [3u32, 5, 12, 22, 32] {
        let a = band(10, 40, 0);
        let b = band(10, 40, k);
        assert_eq!(find_overlap_rows(&a, &b), 40 - k);
    }
    // A scroll of one row puts the match outside the window.
    assert_ne!(find_overlap_rows(&band(10, 40, 0), &band(10, 40, 1)), 39);
}

#[test]
fn tallest_next_frame_is_accepted() {
    let a = Frame { width: 0, height: 40, rgba: Vec::new() };
    let b = Frame { width: 0, height: u32::MAX, rgba: Vec::new() };
    // No column to sample: half of b's height overlaps.
    assert_eq!(find_overlap_rows(&a, &b), u32::MAX / 2);
    let out = stitch(vec![a, b]);
    assert_eq!(out.width, 0);
    assert_eq!(out.height, 40 + (u32::MAX - u32::MAX / 2));
    assert!(out.rgba.is_empty());
}
