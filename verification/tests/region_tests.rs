use asnap::region::{
    crop_filter, parse_region_csv, parse_slurp, region_csv, select_region_pub, slurp_geometry,
    usable_region, Region, Selector, CAPTURE_MIN_SIDE, OCR_MIN_SIDE,
};

fn region(x: i32, y: i32, w: i32, h: i32) -> Region {
    Region { x, y, w, h }
}

#[test]
fn csv_reads_four_fields() {
    assert_eq!(parse_region_csv("10,20,300,400"), Some(region(10, 20, 300, 400)));
}

#[test]
fn csv_trims_each_field() {
    assert_eq!(parse_region_csv(" 10 ,\t20, 300 ,400\n"), Some(region(10, 20, 300, 400)));
}

#[test]
fn csv_takes_first_four_of_more() {
    assert_eq!(parse_region_csv("1,2,3,4,5"), Some(region(1, 2, 3, 4)));
}

#[test]
fn csv_needs_four_fields() {
    assert_eq!(parse_region_csv("1,2,3"), None);
    assert_eq!(parse_region_csv(""), None);
}

#[test]
fn csv_rejects_any_bad_field() {
    assert_eq!(parse_region_csv("1,2,x,4"), None);
    assert_eq!(parse_region_csv("1,2,3,4,oops"), None);
    assert_eq!(parse_region_csv("1,2,3,4,"), None);
    assert_eq!(parse_region_csv("1,,3,4"), None);
}

#[test]
fn csv_signs_and_limits() {
    assert_eq!(parse_region_csv("+5,-6,7,8"), Some(region(5, -6, 7, 8)));
    assert_eq!(
        parse_region_csv("-2147483648,2147483647,0,00012"),
        Some(region(i32::MIN, i32::MAX, 0, 12))
    );
    assert_eq!(parse_region_csv("2147483648,0,1,1"), None);
    assert_eq!(parse_region_csv("-2147483649,0,1,1"), None);
    assert_eq!(parse_region_csv("-,0,1,1"), None);
    assert_eq!(parse_region_csv("+,0,1,1"), None);
    assert_eq!(parse_region_csv("+-1,0,1,1"), None);
    assert_eq!(parse_region_csv("99999999999999999999,0,1,1"), None);
}

#[test]
fn csv_trims_unicode_whitespace() {
    assert_eq!(parse_region_csv("\u{3000}1\u{a0},2,3,4"), Some(region(1, 2, 3, 4)));
    assert_eq!(parse_region_csv("\u{200b}1,2,3,4"), None);
}

#[test]
fn slurp_reads_position_and_size() {
    assert_eq!(parse_slurp("100,200 640x480"), Some(region(100, 200, 640, 480)));
    assert_eq!(parse_slurp("-5,-7 10x20"), Some(region(-5, -7, 10, 20)));
}

#[test]
fn slurp_rejects_malformed() {
    assert_eq!(parse_slurp("100,200"), None);
    assert_eq!(parse_slurp("100 200 640x480"), None);
    assert_eq!(parse_slurp("100,200 640*480"), None);
    assert_eq!(parse_slurp("a,200 640x480"), None);
    assert_eq!(parse_slurp(""), None);
}

#[test]
fn slurp_splits_at_first_separators() {
    // The size part is split at its first 'x'; the rest must be one number.
    assert_eq!(parse_slurp("1,2 3x4x5"), None);
    // Fields are trimmed after splitting.
    assert_eq!(parse_slurp("1,2 3x 4"), Some(region(1, 2, 3, 4)));
    // The first space ends the position, so "1, 2" leaves an empty y.
    assert_eq!(parse_slurp("1, 2 3x4"), None);
}

#[test]
fn geometry_texts() {
    let r = region(-3, 40, 640, 480);
    assert_eq!(slurp_geometry(&r), "-3,40 640x480");
    assert_eq!(region_csv(&r), "-3,40,640,480");
    assert_eq!(crop_filter(&r), "crop=640:480:-3:40");
    let m = region(i32::MIN, 0, i32::MAX, 7);
    assert_eq!(region_csv(&m), "-2147483648,0,2147483647,7");
}

#[test]
fn geometry_reads_back() {
    for r in [region(0, 0, 0, 0), region(-1, 2, 33, 4444), region(i32::MIN, i32::MAX, 5, -6)] {
        assert_eq!(parse_slurp(&slurp_geometry(&r)), Some(r));
        assert_eq!(parse_region_csv(&region_csv(&r)), Some(r));
    }
}

#[test]
fn selector_output_is_decoded_and_trimmed() {
    assert_eq!(
        select_region_pub(Selector::Slurp, true, b"100,200 640x480\n"),
        Some(region(100, 200, 640, 480))
    );
    assert_eq!(
        select_region_pub(Selector::Overlay, true, b"  1,2,3,4\r\n"),
        Some(region(1, 2, 3, 4))
    );
    // The overlay selectors are read whatever their exit status.
    assert_eq!(
        select_region_pub(Selector::Overlay, false, b"1,2,3,4"),
        Some(region(1, 2, 3, 4))
    );
}

#[test]
fn failed_slurp_selects_nothing() {
    assert_eq!(select_region_pub(Selector::Slurp, false, b"100,200 640x480"), None);
    assert_eq!(select_region_pub(Selector::Slurp, true, b"selection cancelled"), None);
}

#[test]
fn invalid_utf8_in_selector_output() {
    // The invalid byte becomes U+FFFD, which is not a digit.
    assert_eq!(select_region_pub(Selector::Overlay, true, b"1,2,3,4\xff"), None);
    assert_eq!(select_region_pub(Selector::Overlay, true, b"1,2,3,4,\xff"), None);
}

#[test]
fn usable_region_filters_small_and_cancelled() {
    assert_eq!(usable_region(None, CAPTURE_MIN_SIDE), None);
    assert_eq!(usable_region(Some(region(0, 0, 5, 5)), CAPTURE_MIN_SIDE), Some(region(0, 0, 5, 5)));
    assert_eq!(usable_region(Some(region(0, 0, 4, 50)), CAPTURE_MIN_SIDE), None);
    assert_eq!(usable_region(Some(region(0, 0, 50, 4)), CAPTURE_MIN_SIDE), None);
    assert_eq!(usable_region(Some(region(0, 0, 3, 3)), OCR_MIN_SIDE), Some(region(0, 0, 3, 3)));
    assert_eq!(usable_region(Some(region(0, 0, 2, 3)), OCR_MIN_SIDE), None);
}
