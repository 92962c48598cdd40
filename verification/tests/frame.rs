use streambridge::{repair_stride, video_data_len, FourCCVideoType};

#[test]
fn length_table_for_1080p_packed() {
    let (w, h) = (1920usize, 1080usize);
    assert_eq!(video_data_len(FourCCVideoType::UYVY, w, h, 0), Some(4_147_200));
    assert_eq!(video_data_len(FourCCVideoType::UYVA, w, h, 0), Some(6_220_800));
    assert_eq!(video_data_len(FourCCVideoType::I420, w, h, 0), Some(6_220_800));
    assert_eq!(video_data_len(FourCCVideoType::YV12, w, h, 0), Some(6_220_800));
    assert_eq!(video_data_len(FourCCVideoType::NV12, w, h, 0), Some(6_220_800));
    assert_eq!(video_data_len(FourCCVideoType::BGRA, w, h, 0), Some(8_294_400));
    assert_eq!(video_data_len(FourCCVideoType::BGRX, w, h, 0), Some(8_294_400));
    assert_eq!(video_data_len(FourCCVideoType::RGBA, w, h, 0), Some(8_294_400));
    assert_eq!(video_data_len(FourCCVideoType::RGBX, w, h, 0), Some(8_294_400));
    assert_eq!(video_data_len(FourCCVideoType::Unknown(7), w, h, 0), Some(4_147_200));
}

#[test]
fn repaired_stride_is_packed_width() {
    assert_eq!(repair_stride(FourCCVideoType::UYVY, 1920, 0), Some(3840));
    assert_eq!(repair_stride(FourCCVideoType::UYVA, 1920, 0), Some(3840));
    assert_eq!(repair_stride(FourCCVideoType::BGRA, 1920, 0), Some(7680));
    assert_eq!(repair_stride(FourCCVideoType::BGRX, 1920, 0), Some(7680));
    assert_eq!(repair_stride(FourCCVideoType::RGBA, 1920, 0), Some(7680));
    assert_eq!(repair_stride(FourCCVideoType::RGBX, 1920, 0), Some(7680));
    assert_eq!(repair_stride(FourCCVideoType::I420, 1920, 0), Some(3840));
    assert_eq!(repair_stride(FourCCVideoType::NV12, 1920, 0), Some(3840));
    assert_eq!(repair_stride(FourCCVideoType::YV12, 1920, 0), Some(3840));
    assert_eq!(repair_stride(FourCCVideoType::Unknown(1), 1920, 0), Some(3840));
}

#[test]
fn given_stride_is_kept() {
    assert_eq!(repair_stride(FourCCVideoType::UYVY, 1920, 4096), Some(4096));
    assert_eq!(repair_stride(FourCCVideoType::BGRA, 1920, 1), Some(1));
    assert_eq!(repair_stride(FourCCVideoType::BGRA, usize::MAX, 16), Some(16));
    assert_eq!(video_data_len(FourCCVideoType::UYVY, 1920, 1080, 4096), Some(4096 * 1080));
    assert_eq!(video_data_len(FourCCVideoType::UYVA, 1920, 1080, 4096), Some(4096 * 1080 + 1920 * 1080));
    assert_eq!(video_data_len(FourCCVideoType::NV12, 1920, 1080, 2048), Some(2048 * 1080 * 3 / 2));
    assert_eq!(video_data_len(FourCCVideoType::RGBX, 1920, 1080, 8192), Some(8192 * 1080));
}

#[test]
fn planar_length_rounds_down() {
    // 3 rows of 5 bytes: 15 * 3 / 2 = 22
    assert_eq!(video_data_len(FourCCVideoType::I420, 2, 3, 5), Some(22));
    assert_eq!(video_data_len(FourCCVideoType::I420, 1, 1, 1), Some(1));
}

#[test]
fn empty_frames_have_no_bytes() {
    assert_eq!(video_data_len(FourCCVideoType::UYVY, 0, 0, 0), Some(0));
    assert_eq!(video_data_len(FourCCVideoType::UYVA, 0, 10, 0), Some(0));
    assert_eq!(video_data_len(FourCCVideoType::BGRA, 10, 0, 0), Some(0));
    assert_eq!(video_data_len(FourCCVideoType::I420, 10, 0, 64), Some(0));
}

#[test]
fn lengths_beyond_the_address_space_are_refused() {
    assert_eq!(repair_stride(FourCCVideoType::UYVY, usize::MAX, 0), None);
    assert_eq!(repair_stride(FourCCVideoType::BGRA, usize::MAX / 4 + 1, 0), None);
    assert_eq!(repair_stride(FourCCVideoType::BGRA, usize::MAX / 4, 0), Some(usize::MAX / 4 * 4));
    assert_eq!(video_data_len(FourCCVideoType::UYVY, usize::MAX, 1, 0), None);
    assert_eq!(video_data_len(FourCCVideoType::UYVY, 4, usize::MAX, 0), None);
    assert_eq!(video_data_len(FourCCVideoType::UYVA, usize::MAX, 2, 1), None);
    // The rows fit, their half on top does not.
    assert_eq!(video_data_len(FourCCVideoType::I420, 1, 1, usize::MAX), None);
    assert_eq!(video_data_len(FourCCVideoType::BGRA, 1, 1, usize::MAX), Some(usize::MAX));
    let third = usize::MAX / 3;
    assert_eq!(video_data_len(FourCCVideoType::NV12, 1, 2, third), Some(third * 2 + third));
}
