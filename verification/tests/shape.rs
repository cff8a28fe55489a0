use pixel_ingest::shape::{expected_rgb_len, infer_layout, pixel_count, ChannelLayout};

#[test]
fn channel_counts() {
    assert_eq!(ChannelLayout::Luma.channels(), 1);
    assert_eq!(ChannelLayout::Rgb.channels(), 3);
    assert_eq!(ChannelLayout::Rgba.channels(), 4);
}

#[test]
fn layout_is_inferred_from_length() {
    assert_eq!(infer_layout(24, 3, 2), Some(ChannelLayout::Rgba));
    assert_eq!(infer_layout(18, 3, 2), Some(ChannelLayout::Rgb));
    assert_eq!(infer_layout(6, 3, 2), Some(ChannelLayout::Luma));
}

#[test]
fn lengths_that_fit_no_layout_are_not_classified() {
    for len in [0usize, 1, 5, 7, 12, 17, 19, 23, 25, 48] {
        assert_eq!(infer_layout(len, 3, 2), None, "length {}", len);
    }
}

#[test]
fn empty_buffer_of_empty_image_counts_as_rgba() {
    assert_eq!(infer_layout(0, 0, 5), Some(ChannelLayout::Rgba));
    assert_eq!(infer_layout(0, 5, 0), Some(ChannelLayout::Rgba));
    assert_eq!(infer_layout(0, 0, 0), Some(ChannelLayout::Rgba));
    assert_eq!(infer_layout(1, 0, 5), None);
}

#[test]
fn dimensions_beyond_the_address_space_fit_nothing() {
    assert_eq!(infer_layout(0, usize::MAX, 2), None);
    assert_eq!(infer_layout(usize::MAX, usize::MAX, usize::MAX), None);
    assert_eq!(infer_layout(usize::MAX - 1, usize::MAX, 2), None);
}

#[test]
fn layouts_whose_size_overflows_are_skipped() {
    let half = usize::MAX / 2;
    // half * 4 and half * 3 overflow, half * 1 does not
    assert_eq!(infer_layout(half, half, 1), Some(ChannelLayout::Luma));
    let third = usize::MAX / 3;
    // third * 4 overflows, third * 3 does not
    assert_eq!(infer_layout(third * 3, third, 1), Some(ChannelLayout::Rgb));
}

#[test]
fn expected_rgb_length() {
    assert_eq!(expected_rgb_len(2, 1), Some(6));
    assert_eq!(expected_rgb_len(1920, 1080), Some(6_220_800));
    assert_eq!(expected_rgb_len(0, 7), Some(0));
    assert_eq!(expected_rgb_len(usize::MAX, 1), None);
    assert_eq!(expected_rgb_len(usize::MAX, 2), None);
    assert_eq!(expected_rgb_len(usize::MAX / 3, 1), Some(usize::MAX / 3 * 3));
}

#[test]
fn pixel_counts() {
    assert_eq!(pixel_count(3, 2), Some(6));
    assert_eq!(pixel_count(0, usize::MAX), Some(0));
    assert_eq!(pixel_count(usize::MAX, 1), Some(usize::MAX));
    assert_eq!(pixel_count(usize::MAX, 2), None);
}
