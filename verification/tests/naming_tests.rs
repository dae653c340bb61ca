use asnap::naming::{frame_tag, output_file_name, stamp_text, tmp_file_name, StampTime};

fn time(year_mod_100: u32, month: u32, day: u32, hour: u32, minute: u32, second: u32) -> StampTime {
    StampTime { year_mod_100, month, day, hour, minute, second }
}

#[test]
fn stamp_is_zero_padded() {
    assert_eq!(stamp_text(&time(26, 6, 25, 15, 5, 20)), "260625_150520");
    assert_eq!(stamp_text(&time(0, 1, 2, 0, 0, 0)), "000102_000000");
    assert_eq!(stamp_text(&time(99, 12, 31, 23, 59, 60)), "991231_235960");
}

#[test]
fn output_name_is_timestamped() {
    assert_eq!(output_file_name(&time(26, 6, 25, 15, 5, 20), "png"), "260625_150520.png");
    assert_eq!(output_file_name(&time(1, 2, 3, 4, 5, 6), "mp4"), "010203_040506.mp4");
}

#[test]
fn tmp_names() {
    assert_eq!(tmp_file_name("ocr", 4242, "png"), "asnap_ocr_4242.png");
    assert_eq!(tmp_file_name(&frame_tag(17), 0, "png"), "asnap_frame17_0.png");
    assert_eq!(frame_tag(0), "frame0");
}
