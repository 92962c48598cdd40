//! Geometry of a captured video frame: row stride and buffer length.
//!
//! The runtime hands out a pointer and leaves the length of the buffer
//! behind it to be derived from the pixel layout, the dimensions and the
//! row stride. A stride of zero stands for tightly packed rows.

use vstd::prelude::*;

use crate::types::FourCCVideoType;

verus! {

/// Bytes per row of a tightly packed frame `w` pixels wide: four per pixel
/// for the 32-bit layouts, two for every other layout.
pub open spec fn packed_stride(fourcc: FourCCVideoType, w: int) -> int {
    if fourcc.is_rgb_family() {
        w * 4
    } else {
        w * 2
    }
}

/// The stride to work with: the given one, or the packed stride if zero was given.
pub open spec fn repaired_stride(fourcc: FourCCVideoType, w: int, stride: int) -> int {
    if stride == 0 {
        packed_stride(fourcc, w)
    } else {
        stride
    }
}

/// Bytes of a `w` by `h` frame with rows `stride` bytes apart.
pub open spec fn frame_len(fourcc: FourCCVideoType, w: int, h: int, stride: int) -> int {
    if fourcc == FourCCVideoType::UYVA {
        stride * h + w * h
    } else if fourcc.is_planar_420() {
        stride * h * 3 / 2
    } else {
        stride * h
    }
}

/// Bytes of a captured frame as described by the runtime, the stride repaired first.
pub open spec fn video_data_len_spec(fourcc: FourCCVideoType, w: int, h: int, stride: int) -> int {
    frame_len(fourcc, w, h, repaired_stride(fourcc, w, stride))
}

/// The stride to work with, or `None` if the packed stride does not fit in `usize`.
pub fn repair_stride(fourcc: FourCCVideoType, w: usize, stride: usize) -> (repaired: Option<usize>)
    ensures
        repaired == (if repaired_stride(fourcc, w as int, stride as int) <= usize::MAX {
            Some(repaired_stride(fourcc, w as int, stride as int) as usize)
        } else {
            None
        }),
{
    if stride != 0 {
        return Some(stride);
    }
    match fourcc {
        FourCCVideoType::BGRA
        | FourCCVideoType::BGRX
        | FourCCVideoType::RGBA
        | FourCCVideoType::RGBX => w.checked_mul(4),
        _ => w.checked_mul(2),
    }
}

/// Length in bytes of the buffer behind a captured frame, or `None` if the
/// repaired stride or the length does not fit in `usize`.
pub fn video_data_len(fourcc: FourCCVideoType, w: usize, h: usize, stride: usize) -> (len: Option<
    usize,
>)
    ensures
        len == (if repaired_stride(fourcc, w as int, stride as int) <= usize::MAX
            && video_data_len_spec(fourcc, w as int, h as int, stride as int) <= usize::MAX {
            Some(video_data_len_spec(fourcc, w as int, h as int, stride as int) as usize)
        } else {
            None
        }),
{
    let stride = match repair_stride(fourcc, w, stride) {
        Some(s) => s,
        None => {
            return None;
        },
    };
    let rows = match stride.checked_mul(h) {
        Some(n) => n,
        None => {
            proof {
                lemma_len_at_least_rows(fourcc, w as int, h as int, stride as int);
            }
            return None;
        },
    };
    match fourcc {
        FourCCVideoType::UYVA => {
            match w.checked_mul(h) {
                Some(alpha) => rows.checked_add(alpha),
                None => None,
            }
        },
        FourCCVideoType::I420 | FourCCVideoType::YV12 | FourCCVideoType::NV12 => {
            rows.checked_add(rows / 2)
        },
        _ => Some(rows),
    }
}

/// A frame is at least as long as its rows laid end to end.
pub proof fn lemma_len_at_least_rows(fourcc: FourCCVideoType, w: int, h: int, stride: int)
    requires
        0 <= w,
        0 <= h,
        0 <= stride,
    ensures
        frame_len(fourcc, w, h, stride) >= stride * h >= 0,
{
    assert(stride * h >= 0) by (nonlinear_arith)
        requires
            0 <= stride,
            0 <= h,
    ;
    assert(w * h >= 0) by (nonlinear_arith)
        requires
            0 <= w,
            0 <= h,
    ;
}

} // verus!
