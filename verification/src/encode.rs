//! Preparing a captured frame for the JPEG encoder.
//!
//! The encoder takes either packed 32-bit pixels as they were captured, or
//! one span of planar 4:2:0 samples, luma first, then either chroma plane.
//! [`encode_frame`] decides which, and for UYVY input converts the frame
//! into scratch buffers that are kept between frames and resized only when
//! the frame size changes. What it returns tells the caller what to hand to
//! the encoder, and whether to configure the encoder's quality first.

use vstd::prelude::*;
use vstd::string::StringExecFns;

use crate::convert::{cb_plane, chroma_rows, cr_plane, luma_plane, uyvy_to_yuv420_planar};
use crate::types::FourCCVideoType;

verus! {

/// Order of the colour channels in packed 32-bit pixels.
#[derive(Debug, Clone, Copy, PartialEq, Eq, Structural)]
pub enum PixelLayout {
    Bgra,
    Rgba,
}

/// What the encoder is to compress.
#[derive(Debug, Clone, Copy, PartialEq, Eq, Structural)]
pub enum EncodeJob {
    /// The packed scratch buffer as a planar 4:2:0 image whose rows are
    /// padded to a multiple of `align` bytes.
    Planar420 { width: usize, height: usize, align: usize },
    /// The captured bytes themselves, rows `pitch` bytes apart.
    Packed { layout: PixelLayout, width: usize, height: usize, pitch: usize },
}

/// One encoder call: the quality to configure first, if it changed since
/// the last frame, and the image to compress.
#[derive(Debug, Clone, Copy, PartialEq, Eq, Structural)]
pub struct EncodePlan {
    pub reconfigure: Option<i32>,
    pub job: EncodeJob,
}

/// Why a frame cannot be encoded.
#[derive(Debug, Clone, Copy, PartialEq, Eq, Structural)]
pub enum EncodeError {
    /// There is no conversion for this pixel layout.
    UnsupportedFourCC(FourCCVideoType),
}

impl EncodeError {
    /// The text the error is shown with.
    pub fn message(&self) -> (text: String)
        ensures
            text@ == "unsupported FourCC"@,
    {
        String::from_str("unsupported FourCC")
    }
}

/// The encoder job for a frame of the given layout and geometry.
pub open spec fn job_for(fourcc: FourCCVideoType, w: usize, h: usize, stride: usize) -> Result<
    EncodeJob,
    EncodeError,
> {
    match fourcc {
        FourCCVideoType::UYVY => Ok(EncodeJob::Planar420 { width: w, height: h, align: 1 }),
        FourCCVideoType::BGRA | FourCCVideoType::BGRX => Ok(
            EncodeJob::Packed { layout: PixelLayout::Bgra, width: w, height: h, pitch: stride },
        ),
        FourCCVideoType::RGBA | FourCCVideoType::RGBX => Ok(
            EncodeJob::Packed { layout: PixelLayout::Rgba, width: w, height: h, pitch: stride },
        ),
        other => Err(EncodeError::UnsupportedFourCC(other)),
    }
}

/// Samples in either chroma plane of the scratch for a `w` by `h` frame.
pub open spec fn chroma_len(w: int, h: int) -> int {
    (w / 2) * (h / 2)
}

/// Samples in the packed scratch for a `w` by `h` frame.
pub open spec fn packed_len(w: int, h: int) -> int {
    w * h + 2 * chroma_len(w, h)
}

/// Whether a `w` by `h` UYVY frame of `len` bytes, rows `stride` bytes
/// apart, can be converted into the scratch: an image with rows needs an
/// even width, with pixels also an even height, and all its rows within
/// the data.
pub open spec fn uyvy_fits(len: int, stride: int, w: int, h: int) -> bool {
    h > 0 ==> {
        &&& w % 2 == 0
        &&& w > 0 ==> h % 2 == 0
        &&& (h - 1) * stride + 2 * w <= len
    }
}

/// Whether [`encode_frame`] takes the frame: every layout but UYVY is
/// taken as it comes; a UYVY frame has to fit and its scratch has to be
/// addressable.
pub open spec fn encodable(fourcc: FourCCVideoType, len: int, stride: int, w: int, h: int) -> bool {
    fourcc == FourCCVideoType::UYVY ==> uyvy_fits(len, stride, w, h) && packed_len(w, h)
        <= usize::MAX
}

/// Scratch buffers that live as long as their worker.
pub struct EncodeBuffers {
    y_plane: Vec<u8>,
    u_plane: Vec<u8>,
    v_plane: Vec<u8>,
    yuv_buf: Vec<u8>,
    last_w: usize,
    last_h: usize,
    last_quality: i32,
}

impl EncodeBuffers {
    /// Width of the frame the scratch is sized for.
    pub closed spec fn width(&self) -> usize {
        self.last_w
    }

    /// Height of the frame the scratch is sized for.
    pub closed spec fn height(&self) -> usize {
        self.last_h
    }

    /// Quality of the last plan handed out, which is what an encoder that
    /// follows the plans is configured with; `-1` before the first plan.
    pub closed spec fn quality(&self) -> i32 {
        self.last_quality
    }

    /// The luma plane.
    pub closed spec fn y(&self) -> Seq<u8> {
        self.y_plane@
    }

    /// The blue-difference plane.
    pub closed spec fn u(&self) -> Seq<u8> {
        self.u_plane@
    }

    /// The red-difference plane.
    pub closed spec fn v(&self) -> Seq<u8> {
        self.v_plane@
    }

    /// The three planes in one span.
    pub closed spec fn packed(&self) -> Seq<u8> {
        self.yuv_buf@
    }

    /// The scratch has exactly the sizes its frame dimensions call for.
    pub open spec fn wf(&self) -> bool {
        &&& self.y().len() == self.width() * self.height()
        &&& self.u().len() == chroma_len(self.width() as int, self.height() as int)
        &&& self.v().len() == chroma_len(self.width() as int, self.height() as int)
        &&& self.packed().len() == packed_len(self.width() as int, self.height() as int)
    }

    /// Empty scratch, sized for no frame, with no quality configured.
    pub fn new() -> (buffers: Self)
        ensures
            buffers.wf(),
            buffers.width() == 0,
            buffers.height() == 0,
            buffers.quality() == -1,
    {
        let buffers = EncodeBuffers {
            y_plane: Vec::new(),
            u_plane: Vec::new(),
            v_plane: Vec::new(),
            yuv_buf: Vec::new(),
            last_w: 0,
            last_h: 0,
            last_quality: -1,
        };
        assert(0 * 0 == 0 && chroma_len(0, 0) == 0) by (nonlinear_arith);
        buffers
    }

    /// The luma plane.
    pub fn y_plane(&self) -> (plane: &Vec<u8>)
        ensures
            plane@ == self.y(),
    {
        &self.y_plane
    }

    /// The blue-difference plane.
    pub fn u_plane(&self) -> (plane: &Vec<u8>)
        ensures
            plane@ == self.u(),
    {
        &self.u_plane
    }

    /// The red-difference plane.
    pub fn v_plane(&self) -> (plane: &Vec<u8>)
        ensures
            plane@ == self.v(),
    {
        &self.v_plane
    }

    /// The three planes in one span, as the encoder takes them.
    pub fn yuv_buf(&self) -> (span: &Vec<u8>)
        ensures
            span@ == self.packed(),
    {
        &self.yuv_buf
    }

    /// Sizes the scratch for a `w` by `h` frame. Nothing is touched if it
    /// is sized for such a frame already.
    pub fn ensure_capacity(&mut self, w: usize, h: usize)
        requires
            old(self).wf(),
            packed_len(w as int, h as int) <= usize::MAX,
        ensures
            final(self).wf(),
            final(self).width() == w,
            final(self).height() == h,
            final(self).quality() == old(self).quality(),
            old(self).width() == w && old(self).height() == h ==> *final(self) == *old(self),
    {
        if w != self.last_w || h != self.last_h {
            proof {
                lemma_sizes(w as int, h as int);
            }
            let chroma: usize = (w / 2) * (h / 2);
            self.y_plane.resize(w * h, 0);
            self.u_plane.resize(chroma, 0);
            self.v_plane.resize(chroma, 0);
            self.yuv_buf.resize(w * h + chroma * 2, 0);
            self.last_w = w;
            self.last_h = h;
        }
    }

    /// Notes the quality the next frame is encoded with and says whether
    /// the encoder has to be configured anew, which it has exactly if the
    /// quality differs from the last one.
    pub fn set_quality(&mut self, quality: i32) -> (changed: bool)
        ensures
            changed == (old(self).quality() != quality),
            final(self).quality() == quality,
            final(self).width() == old(self).width(),
            final(self).height() == old(self).height(),
            final(self).y() == old(self).y(),
            final(self).u() == old(self).u(),
            final(self).v() == old(self).v(),
            final(self).packed() == old(self).packed(),
    {
        if quality != self.last_quality {
            self.last_quality = quality;
            true
        } else {
            false
        }
    }
}

/// The parts of the scratch are no larger than the whole, and none is negative.
proof fn lemma_sizes(w: int, h: int)
    requires
        0 <= w,
        0 <= h,
    ensures
        0 <= w * h <= packed_len(w, h),
        0 <= chroma_len(w, h),
        chroma_len(w, h) * 2 == 2 * chroma_len(w, h),
        w * h + chroma_len(w, h) * 2 == packed_len(w, h),
{
    assert(0 <= w * h) by (nonlinear_arith)
        requires
            0 <= w,
            0 <= h,
    ;
    assert(0 <= (w / 2) * (h / 2)) by (nonlinear_arith)
        requires
            0 <= w / 2,
            0 <= h / 2,
    ;
}

/// Copies `src` into `dst` from position `at` on.
fn copy_into(dst: &mut Vec<u8>, at: usize, src: &Vec<u8>)
    requires
        at + src@.len() <= old(dst)@.len(),
    ensures
        final(dst)@ == old(dst)@.subrange(0, at as int) + src@ + old(dst)@.subrange(
            at + src@.len(),
            old(dst)@.len() as int,
        ),
{
    let n: usize = src.len();
    let total: usize = dst.len();
    let mut i: usize = 0;
    while i < n
        invariant
            i <= n,
            n == src@.len(),
            at + n <= dst@.len(),
            dst@.len() == old(dst)@.len(),
            dst@.len() == total,
            forall|k: int| 0 <= k < at ==> dst@[k] == old(dst)@[k],
            forall|k: int| 0 <= k < i ==> dst@[at + k] == src@[k],
            forall|k: int| at + i <= k < dst@.len() ==> dst@[k] == old(dst)@[k],
        decreases n - i,
    {
        dst[at + i] = src[i];
        i += 1;
    }
    assert(dst@ =~= old(dst)@.subrange(0, at as int) + src@ + old(dst)@.subrange(
        at + src@.len(),
        old(dst)@.len() as int,
    ));
}

/// Whether [`encode_frame`] takes a frame of `len` bytes with this layout
/// and geometry.
pub fn can_encode(fourcc: FourCCVideoType, len: usize, stride: usize, w: usize, h: usize) -> (ok:
    bool)
    ensures
        ok == encodable(fourcc, len as int, stride as int, w as int, h as int),
{
    if fourcc != FourCCVideoType::UYVY {
        return true;
    }
    proof {
        lemma_sizes(w as int, h as int);
    }
    let luma = match w.checked_mul(h) {
        Some(n) => n,
        None => {
            return false;
        },
    };
    assert((w / 2) * (h / 2) <= w * h) by (nonlinear_arith)
        requires
            0 <= w / 2 <= w,
            0 <= h / 2 <= h,
    ;
    let chroma: usize = (w / 2) * (h / 2);
    let fits_memory = match chroma.checked_mul(2) {
        Some(c) => luma.checked_add(c).is_some(),
        None => false,
    };
    if !fits_memory {
        return false;
    }
    if h == 0 {
        return true;
    }
    if w % 2 != 0 || (w > 0 && h % 2 != 0) {
        return false;
    }
    let rows = match (h - 1).checked_mul(stride) {
        Some(n) => n,
        None => {
            return false;
        },
    };
    assert(2 * w <= w * h) by (nonlinear_arith)
        requires
            0 <= w,
            w > 0 ==> h >= 2,
    ;
    match rows.checked_add(2 * w) {
        Some(end) => end <= len,
        None => false,
    }
}

/// Prepares one captured frame for the JPEG encoder.
///
/// A UYVY frame is converted to planar 4:2:0 in the scratch and packed luma
/// first; BGRA and BGRX frames go to the encoder as they are, as BGRA, so
/// do RGBA and RGBX frames, as RGBA. The plan for such a frame says whether
/// the encoder has to be configured with the quality first, and the quality
/// is noted as configured. Any other layout is refused; a refused frame
/// changes nothing, so the quality it came with is not taken for configured.
pub fn encode_frame(
    data: &[u8],
    w: usize,
    h: usize,
    stride: usize,
    fourcc: FourCCVideoType,
    quality: i32,
    buffers: &mut EncodeBuffers,
) -> (plan: Result<EncodePlan, EncodeError>)
    requires
        old(buffers).wf(),
        encodable(fourcc, data@.len() as int, stride as int, w as int, h as int),
    ensures
        final(buffers).wf(),
        plan is Ok ==> final(buffers).quality() == quality,
        plan is Err ==> final(buffers).quality() == old(buffers).quality(),
        plan == (match job_for(fourcc, w, h, stride) {
            Ok(job) => Ok(
                EncodePlan {
                    reconfigure: if old(buffers).quality() != quality {
                        Some(quality)
                    } else {
                        None
                    },
                    job,
                },
            ),
            Err(e) => Err(e),
        }),
        fourcc == FourCCVideoType::UYVY ==> {
            &&& final(buffers).width() == w
            &&& final(buffers).height() == h
            &&& final(buffers).y() == luma_plane(data@, stride as int, w as int, h as int)
            &&& final(buffers).u() == cb_plane(data@, stride as int, w as int, h as int)
            &&& final(buffers).v() == cr_plane(data@, stride as int, w as int, h as int)
            &&& final(buffers).packed() == luma_plane(data@, stride as int, w as int, h as int)
                + cb_plane(data@, stride as int, w as int, h as int) + cr_plane(
                data@,
                stride as int,
                w as int,
                h as int,
            )
        },
        fourcc != FourCCVideoType::UYVY ==> {
            &&& final(buffers).width() == old(buffers).width()
            &&& final(buffers).height() == old(buffers).height()
            &&& final(buffers).y() == old(buffers).y()
            &&& final(buffers).u() == old(buffers).u()
            &&& final(buffers).v() == old(buffers).v()
            &&& final(buffers).packed() == old(buffers).packed()
        },
{
    match fourcc {
        FourCCVideoType::UYVY
        | FourCCVideoType::BGRA
        | FourCCVideoType::BGRX
        | FourCCVideoType::RGBA
        | FourCCVideoType::RGBX => {},
        other => {
            return Err(EncodeError::UnsupportedFourCC(other));
        },
    }
    let changed = buffers.set_quality(quality);
    let reconfigure = if changed {
        Some(quality)
    } else {
        None
    };
    match fourcc {
        FourCCVideoType::UYVY => {
            buffers.ensure_capacity(w, h);
            proof {
                lemma_sizes(w as int, h as int);
                lemma_even_height_chroma(w as int, h as int);
            }
            uyvy_to_yuv420_planar(
                data,
                stride,
                w,
                h,
                buffers.y_plane.as_mut_slice(),
                buffers.u_plane.as_mut_slice(),
                buffers.v_plane.as_mut_slice(),
            );
            proof {
                let st = stride as int;
                if h > 0 {
                    assert(buffers.y_plane@ =~= buffers.y_plane@.subrange(0, w * h));
                    assert(buffers.u_plane@ =~= buffers.u_plane@.subrange(
                        0,
                        (w / 2) * chroma_rows(h as int),
                    ));
                    assert(buffers.v_plane@ =~= buffers.v_plane@.subrange(
                        0,
                        (w / 2) * chroma_rows(h as int),
                    ));
                } else {
                    assert((w as int) * 0 == 0 && ((w as int) / 2) * 0 == 0) by (nonlinear_arith);
                    assert(buffers.y_plane@ =~= luma_plane(data@, st, w as int, 0));
                    assert(buffers.u_plane@ =~= cb_plane(data@, st, w as int, 0));
                    assert(buffers.v_plane@ =~= cr_plane(data@, st, w as int, 0));
                }
            }
            let y_size: usize = w * h;
            let uv_size: usize = (w / 2) * (h / 2);
            copy_into(&mut buffers.yuv_buf, 0, &buffers.y_plane);
            copy_into(&mut buffers.yuv_buf, y_size, &buffers.u_plane);
            copy_into(&mut buffers.yuv_buf, y_size + uv_size, &buffers.v_plane);
            assert(buffers.yuv_buf@ =~= buffers.y_plane@ + buffers.u_plane@ + buffers.v_plane@);
            Ok(
                EncodePlan {
                    reconfigure,
                    job: EncodeJob::Planar420 { width: w, height: h, align: 1 },
                },
            )
        },
        FourCCVideoType::BGRA | FourCCVideoType::BGRX => Ok(
            EncodePlan {
                reconfigure,
                job: EncodeJob::Packed {
                    layout: PixelLayout::Bgra,
                    width: w,
                    height: h,
                    pitch: stride,
                },
            },
        ),
        FourCCVideoType::RGBA | FourCCVideoType::RGBX => Ok(
            EncodePlan {
                reconfigure,
                job: EncodeJob::Packed {
                    layout: PixelLayout::Rgba,
                    width: w,
                    height: h,
                    pitch: stride,
                },
            },
        ),
        other => Err(EncodeError::UnsupportedFourCC(other)),
    }
}

/// With an even height, or no pixel in a row, the chroma planes of the
/// scratch hold exactly the chroma rows of the image.
proof fn lemma_even_height_chroma(w: int, h: int)
    requires
        0 <= w,
        0 <= h,
        h > 0 ==> w % 2 == 0 && (w > 0 ==> h % 2 == 0),
    ensures
        (w / 2) * chroma_rows(h) == chroma_len(w, h),
{
    if w == 0 {
        assert(0 * chroma_rows(h) == 0 && 0 * (h / 2) == 0) by (nonlinear_arith);
    }
}

} // verus!
