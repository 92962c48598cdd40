use streambridge::{
    can_encode, encode_frame, EncodeBuffers, EncodeError, EncodeJob, EncodePlan, FourCCVideoType,
    PixelLayout,
};

fn uyvy_4x2() -> Vec<u8> {
    vec![
        10, 1, 20, 2, 30, 3, 40, 4, //
        12, 5, 22, 6, 32, 7, 42, 8,
    ]
}

#[test]
fn new_scratch_is_empty() {
    let buffers = EncodeBuffers::new();
    assert!(buffers.y_plane().is_empty());
    assert!(buffers.u_plane().is_empty());
    assert!(buffers.v_plane().is_empty());
    assert!(buffers.yuv_buf().is_empty());
}

#[test]
fn uyvy_is_converted_and_packed() {
    let mut buffers = EncodeBuffers::new();
    let plan = encode_frame(&uyvy_4x2(), 4, 2, 8, FourCCVideoType::UYVY, 75, &mut buffers);
    assert_eq!(
        plan,
        Ok(EncodePlan {
            reconfigure: Some(75),
            job: EncodeJob::Planar420 { width: 4, height: 2, align: 1 },
        })
    );
    assert_eq!(buffers.y_plane(), &vec![1, 2, 3, 4, 5, 6, 7, 8]);
    assert_eq!(buffers.u_plane(), &vec![11, 31]);
    assert_eq!(buffers.v_plane(), &vec![21, 41]);
    assert_eq!(buffers.yuv_buf(), &vec![1, 2, 3, 4, 5, 6, 7, 8, 11, 31, 21, 41]);
}

#[test]
fn quality_is_configured_once_per_change() {
    let mut buffers = EncodeBuffers::new();
    let data = uyvy_4x2();
    let first = encode_frame(&data, 4, 2, 8, FourCCVideoType::UYVY, 75, &mut buffers).unwrap();
    let second = encode_frame(&data, 4, 2, 8, FourCCVideoType::UYVY, 75, &mut buffers).unwrap();
    let third = encode_frame(&data, 4, 2, 8, FourCCVideoType::UYVY, 90, &mut buffers).unwrap();
    let fourth = encode_frame(&data, 4, 2, 8, FourCCVideoType::BGRA, 90, &mut buffers).unwrap();
    let fifth = encode_frame(&data, 4, 2, 8, FourCCVideoType::BGRA, 75, &mut buffers).unwrap();
    assert_eq!(first.reconfigure, Some(75));
    assert_eq!(second.reconfigure, None);
    assert_eq!(third.reconfigure, Some(90));
    assert_eq!(fourth.reconfigure, None);
    assert_eq!(fifth.reconfigure, Some(75));
}

#[test]
fn refused_frame_does_not_count_as_configured() {
    let mut buffers = EncodeBuffers::new();
    // The refused frame hands out no plan, so the next plan still has to
    // carry the quality to the encoder.
    assert!(encode_frame(&[], 0, 0, 0, FourCCVideoType::UYVA, 75, &mut buffers).is_err());
    let plan = encode_frame(&[0u8; 16], 2, 2, 8, FourCCVideoType::BGRA, 75, &mut buffers).unwrap();
    assert_eq!(plan.reconfigure, Some(75));
    // Nor does a refused frame of another quality unsettle what is configured.
    assert!(encode_frame(&[], 0, 0, 0, FourCCVideoType::I420, 50, &mut buffers).is_err());
    let plan = encode_frame(&[0u8; 16], 2, 2, 8, FourCCVideoType::RGBA, 75, &mut buffers).unwrap();
    assert_eq!(plan.reconfigure, None);
    let plan = encode_frame(&[0u8; 16], 2, 2, 8, FourCCVideoType::RGBA, 50, &mut buffers).unwrap();
    assert_eq!(plan.reconfigure, Some(50));
}

#[test]
fn set_quality_reports_changes_only() {
    let mut buffers = EncodeBuffers::new();
    assert!(buffers.set_quality(75));
    assert!(!buffers.set_quality(75));
    assert!(buffers.set_quality(76));
    assert!(buffers.set_quality(-1));
    assert!(!buffers.set_quality(-1));
}

#[test]
fn first_quality_of_minus_one_is_no_change() {
    let mut buffers = EncodeBuffers::new();
    assert!(!buffers.set_quality(-1));
}

#[test]
fn packed_layouts_go_through_untouched() {
    let mut buffers = EncodeBuffers::new();
    let data = vec![0u8; 64];
    for (fourcc, layout) in [
        (FourCCVideoType::BGRA, PixelLayout::Bgra),
        (FourCCVideoType::BGRX, PixelLayout::Bgra),
        (FourCCVideoType::RGBA, PixelLayout::Rgba),
        (FourCCVideoType::RGBX, PixelLayout::Rgba),
    ] {
        let plan = encode_frame(&data, 4, 4, 16, fourcc, 80, &mut buffers).unwrap();
        assert_eq!(plan.job, EncodeJob::Packed { layout, width: 4, height: 4, pitch: 16 });
        assert!(buffers.yuv_buf().is_empty());
        assert!(buffers.y_plane().is_empty());
    }
}

#[test]
fn other_layouts_are_refused() {
    let mut buffers = EncodeBuffers::new();
    for fourcc in [
        FourCCVideoType::UYVA,
        FourCCVideoType::I420,
        FourCCVideoType::NV12,
        FourCCVideoType::YV12,
        FourCCVideoType::Unknown(42),
    ] {
        let refused = encode_frame(&[0u8; 64], 4, 4, 8, fourcc, 75, &mut buffers);
        assert_eq!(refused, Err(EncodeError::UnsupportedFourCC(fourcc)));
        assert_eq!(refused.unwrap_err().message(), "unsupported FourCC");
    }
}

#[test]
fn scratch_follows_the_last_frame_size() {
    let mut buffers = EncodeBuffers::new();
    let sizes = [(4usize, 2usize), (8, 4), (2, 2), (2, 2), (16, 6), (4, 2)];
    for &(w, h) in &sizes {
        let data = vec![128u8; w * 2 * h];
        encode_frame(&data, w, h, w * 2, FourCCVideoType::UYVY, 75, &mut buffers).unwrap();
        assert_eq!(buffers.y_plane().len(), w * h);
        assert_eq!(buffers.u_plane().len(), (w / 2) * (h / 2));
        assert_eq!(buffers.v_plane().len(), (w / 2) * (h / 2));
        assert_eq!(buffers.yuv_buf().len(), w * h + 2 * (w / 2) * (h / 2));
        // A frame of another layout in between does not touch the scratch.
        encode_frame(&[0u8; 4], 1, 1, 4, FourCCVideoType::BGRA, 75, &mut buffers).unwrap();
        assert_eq!(buffers.yuv_buf().len(), w * h + 2 * (w / 2) * (h / 2));
    }
}

#[test]
fn ensure_capacity_sizes_all_four_buffers() {
    let mut buffers = EncodeBuffers::new();
    buffers.ensure_capacity(1920, 1080);
    assert_eq!(buffers.y_plane().len(), 2_073_600);
    assert_eq!(buffers.u_plane().len(), 518_400);
    assert_eq!(buffers.v_plane().len(), 518_400);
    assert_eq!(buffers.yuv_buf().len(), 3_110_400);
    buffers.ensure_capacity(5, 3);
    assert_eq!(buffers.y_plane().len(), 15);
    assert_eq!(buffers.u_plane().len(), 2);
    assert_eq!(buffers.v_plane().len(), 2);
    assert_eq!(buffers.yuv_buf().len(), 19);
    buffers.ensure_capacity(0, 0);
    assert!(buffers.yuv_buf().is_empty());
}

#[test]
fn same_size_keeps_the_buffers_in_place() {
    let mut buffers = EncodeBuffers::new();
    let data = uyvy_4x2();
    encode_frame(&data, 4, 2, 8, FourCCVideoType::UYVY, 75, &mut buffers).unwrap();
    let before = buffers.yuv_buf().as_ptr();
    buffers.ensure_capacity(4, 2);
    encode_frame(&data, 4, 2, 8, FourCCVideoType::UYVY, 75, &mut buffers).unwrap();
    assert_eq!(buffers.yuv_buf().as_ptr(), before);
    assert_eq!(buffers.yuv_buf(), &vec![1, 2, 3, 4, 5, 6, 7, 8, 11, 31, 21, 41]);
}

#[test]
fn uniform_frame_packs_to_uniform_planes() {
    let (w, h) = (8usize, 4usize);
    let mut data = Vec::new();
    for _ in 0..(w / 2) * h {
        data.extend_from_slice(&[128, 200, 128, 200]);
    }
    let mut buffers = EncodeBuffers::new();
    encode_frame(&data, w, h, w * 2, FourCCVideoType::UYVY, 75, &mut buffers).unwrap();
    let packed = buffers.yuv_buf();
    assert_eq!(packed.len(), 32 + 16);
    assert!(packed[..32].iter().all(|&s| s == 200));
    assert!(packed[32..].iter().all(|&s| s == 128));
}

#[test]
fn frames_without_rows_are_taken() {
    let mut buffers = EncodeBuffers::new();
    let plan = encode_frame(&[], 3, 0, 6, FourCCVideoType::UYVY, 75, &mut buffers).unwrap();
    assert_eq!(plan.job, EncodeJob::Planar420 { width: 3, height: 0, align: 1 });
    assert!(buffers.yuv_buf().is_empty());
}

#[test]
fn can_encode_tells_which_uyvy_frames_fit() {
    let uyvy = FourCCVideoType::UYVY;
    assert!(can_encode(uyvy, 16, 8, 4, 2));
    assert!(can_encode(uyvy, 1920 * 2 * 1080, 3840, 1920, 1080));
    // One byte short.
    assert!(!can_encode(uyvy, 15, 8, 4, 2));
    // The last row needs its pixels only, not a whole stride.
    assert!(can_encode(uyvy, 12 + 8, 12, 4, 2));
    assert!(!can_encode(uyvy, 12 + 7, 12, 4, 2));
    // Odd width or odd height.
    assert!(!can_encode(uyvy, 1000, 8, 3, 2));
    assert!(!can_encode(uyvy, 1000, 8, 4, 3));
    // No rows, or no pixels in a row.
    assert!(can_encode(uyvy, 0, 0, 3, 0));
    assert!(can_encode(uyvy, 0, 0, 0, 1));
    assert!(can_encode(uyvy, 16, 8, 0, 3));
    assert!(!can_encode(uyvy, 15, 8, 0, 3));
    // Rows that overlap entirely.
    assert!(can_encode(uyvy, 8, 0, 4, 1000));
    // Sizes beyond the address space.
    assert!(!can_encode(uyvy, usize::MAX, 0, usize::MAX / 2 + 1, 2));
    assert!(!can_encode(uyvy, usize::MAX, usize::MAX, 2, 4));
}

#[test]
fn can_encode_takes_every_other_layout() {
    for fourcc in [
        FourCCVideoType::BGRA,
        FourCCVideoType::RGBX,
        FourCCVideoType::I420,
        FourCCVideoType::UYVA,
        FourCCVideoType::Unknown(0),
    ] {
        assert!(can_encode(fourcc, 0, 0, 3, 3));
        assert!(can_encode(fourcc, 0, usize::MAX, usize::MAX, usize::MAX));
    }
}
