//! Conversion of packed 4:2:2 video to planar 4:2:0.
//!
//! A UYVY row packs two pixels into four bytes, `U Y0 V Y1`: every pixel
//! has its own luma sample, each pair of pixels shares one sample of either
//! chroma. The planar 4:2:0 image keeps the luma as it is and halves the
//! chroma vertically as well: the chroma samples of two rows, one above the
//! other, are averaged, rounding down.

use vstd::prelude::*;
use vstd::arithmetic::div_mod::{lemma_fundamental_div_mod, lemma_fundamental_div_mod_converse};

verus! {

/// Luma of the pixel at (`row`, `col`).
pub open spec fn luma_at(src: Seq<u8>, stride: int, row: int, col: int) -> u8 {
    src[row * stride + 2 * col + 1]
}

/// The chroma sample at byte `off` of the four bytes of pixel pair `pair`
/// in row `row`: offset 0 holds the blue-difference sample, offset 2 the
/// red-difference one.
pub open spec fn chroma_at(src: Seq<u8>, stride: int, row: int, pair: int, off: int) -> u8 {
    src[row * stride + 4 * pair + off]
}

/// Blue-difference chroma shared by the pixel pair `pair` of row `row`.
pub open spec fn cb_at(src: Seq<u8>, stride: int, row: int, pair: int) -> u8 {
    chroma_at(src, stride, row, pair, 0)
}

/// Red-difference chroma shared by the pixel pair `pair` of row `row`.
pub open spec fn cr_at(src: Seq<u8>, stride: int, row: int, pair: int) -> u8 {
    chroma_at(src, stride, row, pair, 2)
}

/// The mean of two samples, rounded down.
pub open spec fn mean(top: u8, bottom: u8) -> u8 {
    ((top as int + bottom as int) / 2) as u8
}

/// Chroma of the 4:2:0 image at chroma row `crow`: the mean over the two
/// image rows it covers, or the upper row's sample where the image ends
/// with that row.
pub open spec fn chroma_420(src: Seq<u8>, stride: int, h: int, crow: int, pair: int, off: int) -> u8 {
    if 2 * crow + 1 < h {
        mean(
            chroma_at(src, stride, 2 * crow, pair, off),
            chroma_at(src, stride, 2 * crow + 1, pair, off),
        )
    } else {
        chroma_at(src, stride, 2 * crow, pair, off)
    }
}

/// Blue-difference chroma of the 4:2:0 image.
pub open spec fn cb_420(src: Seq<u8>, stride: int, h: int, crow: int, pair: int) -> u8 {
    chroma_420(src, stride, h, crow, pair, 0)
}

/// Red-difference chroma of the 4:2:0 image.
pub open spec fn cr_420(src: Seq<u8>, stride: int, h: int, crow: int, pair: int) -> u8 {
    chroma_420(src, stride, h, crow, pair, 2)
}

/// Number of chroma rows of an image `h` rows high.
pub open spec fn chroma_rows(h: int) -> int {
    (h + 1) / 2
}

/// The luma plane of a `w` by `h` image, row after row.
pub open spec fn luma_plane(src: Seq<u8>, stride: int, w: int, h: int) -> Seq<u8> {
    Seq::new((w * h) as nat, |i: int| luma_at(src, stride, i / w, i % w))
}

/// The blue-difference plane of the 4:2:0 image, row after row.
pub open spec fn cb_plane(src: Seq<u8>, stride: int, w: int, h: int) -> Seq<u8> {
    Seq::new(
        ((w / 2) * chroma_rows(h)) as nat,
        |i: int| chroma_420(src, stride, h, i / (w / 2), i % (w / 2), 0),
    )
}

/// The red-difference plane of the 4:2:0 image, row after row.
pub open spec fn cr_plane(src: Seq<u8>, stride: int, w: int, h: int) -> Seq<u8> {
    Seq::new(
        ((w / 2) * chroma_rows(h)) as nat,
        |i: int| chroma_420(src, stride, h, i / (w / 2), i % (w / 2), 2),
    )
}

/// Whether a `w` by `h` UYVY image with rows `stride` bytes apart lies
/// within `src_len` bytes and its planes within the given lengths. An image
/// without rows always does; otherwise the width has to be even, as the
/// layout packs pixels in pairs.
pub open spec fn planar_fits(
    src_len: int,
    stride: int,
    w: int,
    h: int,
    y_len: int,
    u_len: int,
    v_len: int,
) -> bool {
    h > 0 ==> {
        &&& w % 2 == 0
        &&& (h - 1) * stride + 2 * w <= src_len
        &&& w * h <= y_len
        &&& (w / 2) * chroma_rows(h) <= u_len
        &&& (w / 2) * chroma_rows(h) <= v_len
    }
}

/// A luma plane in the making: the first `done` samples are converted, the
/// rest is as it was.
spec fn luma_state(src: Seq<u8>, stride: int, w: int, done: int, before: Seq<u8>) -> Seq<u8> {
    Seq::new(
        before.len(),
        |i: int|
            if i < done {
                luma_at(src, stride, i / w, i % w)
            } else {
                before[i]
            },
    )
}

/// One sample of a chroma plane in the making, `hw` samples per row: the
/// image rows above `row` are taken in, of row `row` the pairs before `pair`.
spec fn chroma_cell(
    src: Seq<u8>,
    stride: int,
    hw: int,
    off: int,
    row: int,
    pair: int,
    before: Seq<u8>,
    j: int,
) -> u8 {
    let crow = j / hw;
    let p = j % hw;
    let top = chroma_at(src, stride, 2 * crow, p, off);
    let both = mean(top, chroma_at(src, stride, 2 * crow + 1, p, off));
    if 2 * crow + 1 < row {
        both
    } else if 2 * crow + 1 == row {
        if p < pair {
            both
        } else {
            top
        }
    } else if 2 * crow == row && p < pair {
        top
    } else {
        before[j]
    }
}

/// A chroma plane in the making.
spec fn chroma_state(
    src: Seq<u8>,
    stride: int,
    hw: int,
    off: int,
    row: int,
    pair: int,
    before: Seq<u8>,
) -> Seq<u8> {
    Seq::new(before.len(), |j: int| chroma_cell(src, stride, hw, off, row, pair, before, j))
}

/// Sample `r` of row `q` sits at `q * d + r`, and nowhere else.
proof fn lemma_cell(q: int, d: int, r: int)
    requires
        d > 0,
        0 <= r < d,
    ensures
        (q * d + r) / d == q,
        (q * d + r) % d == r,
{
    lemma_fundamental_div_mod_converse(q * d + r, d, q, r);
}

/// Every position is sample `j % d` of row `j / d`.
proof fn lemma_cell_unique(j: int, d: int)
    requires
        d > 0,
    ensures
        j == (j / d) * d + j % d,
        0 <= j % d < d,
{
    lemma_fundamental_div_mod(j, d);
    assert(d * (j / d) == (j / d) * d) by (nonlinear_arith);
}

/// A sample lies in the first `rows` rows exactly if it comes before the
/// first sample of row `rows`.
proof fn lemma_row_of(j: int, d: int, rows: int)
    requires
        d > 0,
    ensures
        j < d * rows <==> j / d < rows,
{
    lemma_cell_unique(j, d);
    let q = j / d;
    if q < rows {
        assert(q * d + d <= rows * d) by (nonlinear_arith)
            requires
                q + 1 <= rows,
                d > 0,
        ;
    } else {
        assert(q * d >= rows * d) by (nonlinear_arith)
            requires
                q >= rows,
                d > 0,
        ;
    }
    assert(rows * d == d * rows) by (nonlinear_arith);
}

/// Writing the two luma samples of a pixel pair takes the plane two
/// samples further.
proof fn lemma_luma_step(src: Seq<u8>, stride: int, w: int, row: int, col: int, before: Seq<u8>)
    requires
        w > 0,
        0 <= row,
        0 <= col,
        col + 1 < w,
        row * w + col + 1 < before.len(),
    ensures
        luma_state(src, stride, w, row * w + col, before).update(
            row * w + col,
            luma_at(src, stride, row, col),
        ).update(row * w + col + 1, luma_at(src, stride, row, col + 1)) == luma_state(
            src,
            stride,
            w,
            row * w + col + 2,
            before,
        ),
{
    lemma_cell(row, w, col);
    lemma_cell(row, w, col + 1);
    assert(row * w >= 0) by (nonlinear_arith)
        requires
            row >= 0,
            w > 0,
    ;
    assert(luma_state(src, stride, w, row * w + col, before).update(
        row * w + col,
        luma_at(src, stride, row, col),
    ).update(row * w + col + 1, luma_at(src, stride, row, col + 1)) =~= luma_state(
        src,
        stride,
        w,
        row * w + col + 2,
        before,
    ));
}

/// Writing the chroma sample of a pixel pair, or averaging it into what
/// the row above left there, takes the plane one pair further.
proof fn lemma_chroma_step(
    src: Seq<u8>,
    stride: int,
    hw: int,
    off: int,
    row: int,
    pair: int,
    before: Seq<u8>,
    now: Seq<u8>,
)
    requires
        hw > 0,
        0 <= row,
        0 <= pair < hw,
        (row / 2) * hw + pair < before.len(),
        now == chroma_state(src, stride, hw, off, row, pair, before),
    ensures
        row % 2 == 0 ==> now.update(
            (row / 2) * hw + pair,
            chroma_at(src, stride, row, pair, off),
        ) == chroma_state(src, stride, hw, off, row, pair + 1, before),
        row % 2 == 1 ==> now.update(
            (row / 2) * hw + pair,
            mean(now[(row / 2) * hw + pair], chroma_at(src, stride, row, pair, off)),
        ) == chroma_state(src, stride, hw, off, row, pair + 1, before),
{
    let k = (row / 2) * hw + pair;
    lemma_cell(row / 2, hw, pair);
    assert((row / 2) * hw >= 0) by (nonlinear_arith)
        requires
            row >= 0,
            hw > 0,
    ;
    let next = chroma_state(src, stride, hw, off, row, pair + 1, before);
    let put = if row % 2 == 0 {
        now.update(k, chroma_at(src, stride, row, pair, off))
    } else {
        now.update(k, mean(now[k], chroma_at(src, stride, row, pair, off)))
    };
    assert forall|j: int| 0 <= j < before.len() implies put[j] == next[j] by {
        lemma_cell_unique(j, hw);
    }
    assert(put =~= next);
}

/// A row taken in to its end is a row above the next.
proof fn lemma_chroma_row_done(
    src: Seq<u8>,
    stride: int,
    hw: int,
    off: int,
    row: int,
    before: Seq<u8>,
)
    requires
        hw > 0,
        0 <= row,
    ensures
        chroma_state(src, stride, hw, off, row, hw, before) == chroma_state(
            src,
            stride,
            hw,
            off,
            row + 1,
            0,
            before,
        ),
{
    assert forall|j: int| 0 <= j < before.len() implies chroma_cell(
        src,
        stride,
        hw,
        off,
        row,
        hw,
        before,
        j,
    ) == chroma_cell(src, stride, hw, off, row + 1, 0, before, j) by {
        lemma_cell_unique(j, hw);
    }
    assert(chroma_state(src, stride, hw, off, row, hw, before) =~= chroma_state(
        src,
        stride,
        hw,
        off,
        row + 1,
        0,
        before,
    ));
}

/// Once all rows are taken in, the plane holds the 4:2:0 chroma, and what
/// lies behind it is as it was.
proof fn lemma_chroma_done(
    src: Seq<u8>,
    stride: int,
    w: int,
    off: int,
    h: int,
    before: Seq<u8>,
    now: Seq<u8>,
)
    requires
        w >= 2,
        w % 2 == 0,
        h > 0,
        (w / 2) * chroma_rows(h) <= before.len(),
        now == chroma_state(src, stride, w / 2, off, h, 0, before),
    ensures
        now.len() == before.len(),
        now.subrange(0, (w / 2) * chroma_rows(h)) == Seq::new(
            ((w / 2) * chroma_rows(h)) as nat,
            |i: int| chroma_420(src, stride, h, i / (w / 2), i % (w / 2), off),
        ),
        forall|j: int| (w / 2) * chroma_rows(h) <= j < before.len() ==> now[j] == before[j],
{
    let hw = w / 2;
    let rows = chroma_rows(h);
    let n = hw * rows;
    assert(n >= 0) by (nonlinear_arith)
        requires
            n == hw * rows,
            hw > 0,
            rows >= 0,
    ;
    let want = Seq::new(n as nat, |i: int| chroma_420(src, stride, h, i / hw, i % hw, off));
    assert forall|j: int| 0 <= j < n implies now.subrange(0, n)[j] == want[j] by {
        lemma_row_of(j, hw, rows);
    }
    assert(now.subrange(0, n) =~= want);
    assert forall|j: int| n <= j < before.len() implies now[j] == before[j] by {
        lemma_row_of(j, hw, rows);
    }
}

/// Converts a packed UYVY image into the three planes of a 4:2:0 image.
///
/// The luma plane takes `w * h` bytes of `y`, either chroma plane
/// `(w / 2) * chroma_rows(h)` bytes of `u` and `v`; what lies behind them
/// is left as it was.
pub fn uyvy_to_yuv420_planar(
    uyvy: &[u8],
    stride: usize,
    w: usize,
    h: usize,
    y: &mut [u8],
    u: &mut [u8],
    v: &mut [u8],
)
    requires
        planar_fits(
            uyvy@.len() as int,
            stride as int,
            w as int,
            h as int,
            old(y)@.len() as int,
            old(u)@.len() as int,
            old(v)@.len() as int,
        ),
    ensures
        final(y)@.len() == old(y)@.len(),
        final(u)@.len() == old(u)@.len(),
        final(v)@.len() == old(v)@.len(),
        h > 0 ==> final(y)@.subrange(0, w * h) == luma_plane(
            uyvy@,
            stride as int,
            w as int,
            h as int,
        ),
        h > 0 ==> final(u)@.subrange(0, (w / 2) * chroma_rows(h as int)) == cb_plane(
            uyvy@,
            stride as int,
            w as int,
            h as int,
        ),
        h > 0 ==> final(v)@.subrange(0, (w / 2) * chroma_rows(h as int)) == cr_plane(
            uyvy@,
            stride as int,
            w as int,
            h as int,
        ),
        forall|i: int|
            (if h > 0 {
                w * h
            } else {
                0
            }) <= i < old(y)@.len() ==> final(y)@[i] == old(y)@[i],
        forall|i: int|
            (if h > 0 {
                (w / 2) * chroma_rows(h as int)
            } else {
                0
            }) <= i < old(u)@.len() ==> final(u)@[i] == old(u)@[i],
        forall|i: int|
            (if h > 0 {
                (w / 2) * chroma_rows(h as int)
            } else {
                0
            }) <= i < old(v)@.len() ==> final(v)@[i] == old(v)@[i],
{
    if h == 0 {
        return ;
    }
    if w == 0 {
        proof {
            assert(0 * (h as int) == 0 && 0 * chroma_rows(h as int) == 0) by (nonlinear_arith);
            assert(y@.subrange(0, 0) =~= luma_plane(uyvy@, stride as int, 0, h as int));
            assert(u@.subrange(0, 0) =~= cb_plane(uyvy@, stride as int, 0, h as int));
            assert(v@.subrange(0, 0) =~= cr_plane(uyvy@, stride as int, 0, h as int));
        }
        return ;
    }
    let hw: usize = w / 2;
    let src_len: usize = uyvy.len();
    let y_len: usize = y.len();
    let u_len: usize = u.len();
    let v_len: usize = v.len();
    let ghost src = uyvy@;
    let ghost st = stride as int;
    let ghost y0 = y@;
    let ghost u0 = u@;
    let ghost v0 = v@;
    proof {
        assert(y@ =~= luma_state(src, st, w as int, 0, y0));
        assert forall|j: int| 0 <= j < u0.len() implies chroma_cell(
            src,
            st,
            hw as int,
            0,
            0,
            0,
            u0,
            j,
        ) == u0[j] by {
            lemma_cell_unique(j, hw as int);
        }
        assert forall|j: int| 0 <= j < v0.len() implies chroma_cell(
            src,
            st,
            hw as int,
            2,
            0,
            0,
            v0,
            j,
        ) == v0[j] by {
            lemma_cell_unique(j, hw as int);
        }
        assert(u@ =~= chroma_state(src, st, hw as int, 0, 0, 0, u0));
        assert(v@ =~= chroma_state(src, st, hw as int, 2, 0, 0, v0));
    }
    let mut row: usize = 0;
    while row < h
        invariant
            row <= h,
            w >= 2,
            w % 2 == 0,
            hw == w / 2,
            src == uyvy@,
            st == stride as int,
            src.len() == src_len,
            y0.len() == y_len,
            u0.len() == u_len,
            v0.len() == v_len,
            (h - 1) * stride + 2 * w <= src.len(),
            w * h <= y0.len(),
            hw * chroma_rows(h as int) <= u0.len(),
            hw * chroma_rows(h as int) <= v0.len(),
            y@ == luma_state(src, st, w as int, row * w, y0),
            u@ == chroma_state(src, st, hw as int, 0, row as int, 0, u0),
            v@ == chroma_state(src, st, hw as int, 2, row as int, 0, v0),
        decreases h - row,
    {
        proof {
            assert(row * stride <= (h - 1) * stride) by (nonlinear_arith)
                requires
                    row <= h - 1,
                    stride >= 0,
            ;
            assert(row * w + w <= h * w && row * w >= 0) by (nonlinear_arith)
                requires
                    0 <= row,
                    row + 1 <= h,
                    w >= 0,
            ;
            assert(h * w == w * h) by (nonlinear_arith);
            assert((row / 2) * hw + hw <= chroma_rows(h as int) * hw && (row / 2) * hw >= 0)
                by (nonlinear_arith)
                requires
                    0 <= row / 2,
                    row / 2 + 1 <= chroma_rows(h as int),
                    hw >= 0,
            ;
            assert(chroma_rows(h as int) * hw == hw * chroma_rows(h as int)) by (nonlinear_arith);
        }
        let base: usize = row * stride;
        let y_off: usize = row * w;
        let uv_off: usize = (row / 2) * hw;
        let mut col: usize = 0;
        while col < w
            invariant
                row < h,
                col <= w,
                col % 2 == 0,
                w >= 2,
                w % 2 == 0,
                hw == w / 2,
                src == uyvy@,
                st == stride as int,
                base == row * stride,
                y_off == row * w,
                uv_off == (row / 2) * hw,
                src.len() == src_len,
                y0.len() == y_len,
                u0.len() == u_len,
                v0.len() == v_len,
                base + 2 * w <= src.len(),
                y_off + w <= y0.len(),
                uv_off + hw <= u0.len(),
                uv_off + hw <= v0.len(),
                y@ == luma_state(src, st, w as int, y_off + col, y0),
                u@ == chroma_state(src, st, hw as int, 0, row as int, (col / 2) as int, u0),
                v@ == chroma_state(src, st, hw as int, 2, row as int, (col / 2) as int, v0),
            decreases w - col,
        {
            let i: usize = base + col * 2;
            let pair: usize = col / 2;
            let k: usize = uv_off + pair;
            proof {
                lemma_luma_step(src, st, w as int, row as int, col as int, y0);
                lemma_chroma_step(src, st, hw as int, 0, row as int, pair as int, u0, u@);
                lemma_chroma_step(src, st, hw as int, 2, row as int, pair as int, v0, v@);
                assert(luma_at(src, st, row as int, col as int) == src[i + 1]);
                assert(luma_at(src, st, row as int, col + 1) == src[i + 3]);
                assert(chroma_at(src, st, row as int, pair as int, 0) == src[i as int]);
                assert(chroma_at(src, st, row as int, pair as int, 2) == src[i + 2]);
            }
            y[y_off + col] = uyvy[i + 1];
            y[y_off + col + 1] = uyvy[i + 3];
            if row % 2 == 0 {
                u[k] = uyvy[i];
                v[k] = uyvy[i + 2];
            } else {
                u[k] = ((u[k] as u16 + uyvy[i] as u16) / 2) as u8;
                v[k] = ((v[k] as u16 + uyvy[i + 2] as u16) / 2) as u8;
            }
            col += 2;
        }
        proof {
            lemma_chroma_row_done(src, st, hw as int, 0, row as int, u0);
            lemma_chroma_row_done(src, st, hw as int, 2, row as int, v0);
            assert(y_off + w == (row + 1) * w) by (nonlinear_arith)
                requires
                    y_off == row * w,
            ;
        }
        row += 1;
    }
    proof {
        assert(h * w == w * h) by (nonlinear_arith);
        assert(y@.subrange(0, w * h) =~= luma_plane(src, st, w as int, h as int));
        lemma_chroma_done(src, st, w as int, 0, h as int, u0, u@);
        lemma_chroma_done(src, st, w as int, 2, h as int, v0, v@);
    }
}


/// Where the planes keep the sample of a given pixel: luma of pixel
/// (`row`, `col`) at `row * w + col`, chroma of chroma row `crow` and pixel
/// pair `pair` at `crow * (w / 2) + pair`.
pub proof fn lemma_plane_layout(
    src: Seq<u8>,
    stride: int,
    w: int,
    h: int,
    row: int,
    col: int,
    crow: int,
    pair: int,
)
    requires
        w >= 2,
        0 <= row < h,
        0 <= col < w,
        0 <= crow < chroma_rows(h),
        0 <= pair < w / 2,
    ensures
        0 <= row * w + col < luma_plane(src, stride, w, h).len(),
        luma_plane(src, stride, w, h)[row * w + col] == luma_at(src, stride, row, col),
        0 <= crow * (w / 2) + pair < cb_plane(src, stride, w, h).len(),
        cb_plane(src, stride, w, h).len() == cr_plane(src, stride, w, h).len(),
        cb_plane(src, stride, w, h)[crow * (w / 2) + pair] == cb_420(src, stride, h, crow, pair),
        cr_plane(src, stride, w, h)[crow * (w / 2) + pair] == cr_420(src, stride, h, crow, pair),
{
    let hw = w / 2;
    lemma_cell(row, w, col);
    lemma_cell(crow, hw, pair);
    lemma_row_of(row * w + col, w, h);
    lemma_row_of(crow * hw + pair, hw, chroma_rows(h));
    assert(row * w >= 0 && crow * hw >= 0) by (nonlinear_arith)
        requires
            row >= 0,
            w >= 0,
            crow >= 0,
            hw >= 0,
    ;
}

/// A frame of one colour converts to planes of one colour: if every luma
/// sample of the image is `luma`, every blue-difference sample `cb` and
/// every red-difference sample `cr`, then so is every sample of the
/// respective plane.
pub proof fn lemma_uniform_frame_stays_uniform(
    src: Seq<u8>,
    stride: int,
    w: int,
    h: int,
    luma: u8,
    cb: u8,
    cr: u8,
)
    requires
        w >= 2,
        h > 0,
        forall|row: int, col: int|
            0 <= row < h && 0 <= col < w ==> #[trigger] luma_at(src, stride, row, col) == luma,
        forall|row: int, pair: int|
            0 <= row < h && 0 <= pair < w / 2 ==> #[trigger] chroma_at(src, stride, row, pair, 0)
                == cb,
        forall|row: int, pair: int|
            0 <= row < h && 0 <= pair < w / 2 ==> #[trigger] chroma_at(src, stride, row, pair, 2)
                == cr,
    ensures
        luma_plane(src, stride, w, h) == Seq::new((w * h) as nat, |i: int| luma),
        cb_plane(src, stride, w, h) == Seq::new(((w / 2) * chroma_rows(h)) as nat, |i: int| cb),
        cr_plane(src, stride, w, h) == Seq::new(((w / 2) * chroma_rows(h)) as nat, |i: int| cr),
{
    let hw = w / 2;
    let rows = chroma_rows(h);
    assert(w * h >= 0 && hw * rows >= 0) by (nonlinear_arith)
        requires
            w >= 0,
            h >= 0,
            hw >= 0,
            rows >= 0,
    ;
    assert forall|i: int| 0 <= i < w * h implies luma_plane(src, stride, w, h)[i] == luma by {
        lemma_row_of(i, w, h);
        lemma_cell_unique(i, w);
        assert(0 <= i / w) by {
            if i / w < 0 {
                assert((i / w) * w <= -w) by (nonlinear_arith)
                    requires
                        i / w <= -1,
                        w > 0,
                ;
            }
        }
        assert(luma_at(src, stride, i / w, i % w) == luma);
    }
    assert(luma_plane(src, stride, w, h) =~= Seq::new((w * h) as nat, |i: int| luma));
    assert forall|i: int| 0 <= i < hw * rows implies cb_plane(src, stride, w, h)[i] == cb
        && cr_plane(src, stride, w, h)[i] == cr by {
        lemma_row_of(i, hw, rows);
        lemma_cell_unique(i, hw);
        let crow = i / hw;
        let pair = i % hw;
        assert(0 <= crow) by {
            if crow < 0 {
                assert(crow * hw <= -hw) by (nonlinear_arith)
                    requires
                        crow <= -1,
                        hw > 0,
                ;
            }
        }
        assert(chroma_at(src, stride, 2 * crow, pair, 0) == cb);
        assert(chroma_at(src, stride, 2 * crow, pair, 2) == cr);
        if 2 * crow + 1 < h {
            assert(chroma_at(src, stride, 2 * crow + 1, pair, 0) == cb);
            assert(chroma_at(src, stride, 2 * crow + 1, pair, 2) == cr);
        }
    }
    assert(cb_plane(src, stride, w, h) =~= Seq::new((hw * rows) as nat, |i: int| cb));
    assert(cr_plane(src, stride, w, h) =~= Seq::new((hw * rows) as nat, |i: int| cr));
}


} // verus!
