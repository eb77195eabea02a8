//! The frosted backdrop behind modal overlays: the window's pixels are
//! shrunk by averaging blocks, then box-blurred. Images are 4-byte pixels
//! (BGRA), row by row, with no padding.

use vstd::prelude::*;

verus! {

/// How much the snapshot is shrunk before blurring.
pub const SHRINK: u32 = 10;

/// Box-blur passes over the shrunk image.
pub const PASSES: usize = 3;

/// Blur radius in shrunk pixels.
pub const RADIUS: u32 = 2;

/// Channel `c` of pixel `(x, y)` in an image `w` pixels wide.
pub open spec fn pixel(src: Seq<u8>, w: int, x: int, y: int, c: int) -> int {
    src[(y * w + x) * 4 + c] as int
}

/// Sum of channel `c` over pixels `x0..x1` of row `y`.
pub open spec fn row_sum(src: Seq<u8>, w: int, c: int, y: int, x0: int, x1: int) -> int
    decreases x1 - x0,
{
    if x0 < x1 {
        row_sum(src, w, c, y, x0, x1 - 1) + pixel(src, w, x1 - 1, y, c)
    } else {
        0
    }
}

/// Sum of channel `c` over the rectangle `x0..x1` by `y0..y1`.
pub open spec fn rect_sum(src: Seq<u8>, w: int, c: int, x0: int, x1: int, y0: int, y1: int) -> int
    decreases y1 - y0,
{
    if y0 < y1 {
        rect_sum(src, w, c, x0, x1, y0, y1 - 1) + row_sum(src, w, c, y1 - 1, x0, x1)
    } else {
        0
    }
}

/// The mean of channel `c` over a rectangle, rounded down, as the byte
/// stored (an empty rectangle averages to 0).
pub open spec fn rect_mean(src: Seq<u8>, w: int, c: int, x0: int, x1: int, y0: int, y1: int) -> u8 {
    let cells = (x1 - x0) * (y1 - y0);
    (rect_sum(src, w, c, x0, x1, y0, y1) / if cells >= 1 {
        cells
    } else {
        1
    }) as u8
}

pub open spec fn min(a: int, b: int) -> int {
    if a <= b {
        a
    } else {
        b
    }
}

pub open spec fn max(a: int, b: int) -> int {
    if a >= b {
        a
    } else {
        b
    }
}

/// A side of the shrunk image: a tenth, but at least one pixel.
pub open spec fn shrunk(d: u32) -> int {
    max((d / SHRINK) as int, 1)
}

proof fn lemma_index_bound(w: int, h: int, x: int, y: int)
    requires
        0 <= x < w,
        0 <= y < h,
    ensures
        (y * w + x) * 4 + 3 < w * h * 4,
        0 <= (y * w + x) * 4,
{
    assert(y * w + x < w * h) by (nonlinear_arith)
        requires
            0 <= x < w,
            0 <= y < h,
    ;
    assert(0 <= y * w) by (nonlinear_arith)
        requires
            0 <= y,
            0 <= w,
    ;
}

/// Mean of each channel over the rectangle `x0..x1` by `y0..y1`, at most
/// `SHRINK` pixels on a side.
fn rect_means(src: &[u8], w: u32, h: u32, x0: u32, x1: u32, y0: u32, y1: u32) -> (r: [u8; 4])
    requires
        x0 <= x1 <= w,
        y0 <= y1 <= h,
        x1 - x0 <= SHRINK,
        y1 - y0 <= SHRINK,
        w * h * 4 <= u32::MAX,
        src@.len() >= w * h * 4,
    ensures
        forall|c: int|
            0 <= c < 4 ==> r@[c] == rect_mean(
                src@,
                w as int,
                c,
                x0 as int,
                x1 as int,
                y0 as int,
                y1 as int,
            ),
{
    let ghost s = src@;
    let mut b: u32 = 0;
    let mut g: u32 = 0;
    let mut r: u32 = 0;
    let mut a: u32 = 0;
    let mut sy = y0;
    while sy < y1
        invariant
            y0 <= sy <= y1 <= h,
            x0 <= x1 <= w,
            x1 - x0 <= SHRINK,
            y1 - y0 <= SHRINK,
            w * h * 4 <= u32::MAX,
            s == src@,
            s.len() >= w * h * 4,
            b == rect_sum(s, w as int, 0, x0 as int, x1 as int, y0 as int, sy as int),
            g == rect_sum(s, w as int, 1, x0 as int, x1 as int, y0 as int, sy as int),
            r == rect_sum(s, w as int, 2, x0 as int, x1 as int, y0 as int, sy as int),
            a == rect_sum(s, w as int, 3, x0 as int, x1 as int, y0 as int, sy as int),
            b <= 2550 * (sy - y0),
            g <= 2550 * (sy - y0),
            r <= 2550 * (sy - y0),
            a <= 2550 * (sy - y0),
        decreases y1 - sy,
    {
        let mut sx = x0;
        let ghost (b0, g0, r0, a0) = (b, g, r, a);
        while sx < x1
            invariant
                y0 <= sy < y1 <= h,
                x0 <= sx <= x1 <= w,
                x1 - x0 <= SHRINK,
                y1 - y0 <= SHRINK,
                w * h * 4 <= u32::MAX,
                s == src@,
                s.len() >= w * h * 4,
                b0 <= 2550 * (sy - y0),
                g0 <= 2550 * (sy - y0),
                r0 <= 2550 * (sy - y0),
                a0 <= 2550 * (sy - y0),
                b == b0 + row_sum(s, w as int, 0, sy as int, x0 as int, sx as int),
                g == g0 + row_sum(s, w as int, 1, sy as int, x0 as int, sx as int),
                r == r0 + row_sum(s, w as int, 2, sy as int, x0 as int, sx as int),
                a == a0 + row_sum(s, w as int, 3, sy as int, x0 as int, sx as int),
                b <= b0 + 255 * (sx - x0),
                g <= g0 + 255 * (sx - x0),
                r <= r0 + 255 * (sx - x0),
                a <= a0 + 255 * (sx - x0),
            decreases x1 - sx,
        {
            proof {
                lemma_index_bound(w as int, h as int, sx as int, sy as int);
            }
            let i = ((sy * w + sx) * 4) as usize;
            b = b + src[i] as u32;
            g = g + src[i + 1] as u32;
            r = r + src[i + 2] as u32;
            a = a + src[i + 3] as u32;
            sx += 1;
        }
        sy += 1;
    }
    proof {
        assert((x1 - x0) * (y1 - y0) <= 100) by (nonlinear_arith)
            requires
                x0 <= x1,
                y0 <= y1,
                x1 - x0 <= 10,
                y1 - y0 <= 10,
        ;
    }
    let cells = (x1 - x0) * (y1 - y0);
    let d = if cells >= 1 {
        cells
    } else {
        1
    };
    proof {
        assert(cells as int == (x1 - x0) * (y1 - y0)) by (nonlinear_arith)
            requires
                x1 - x0 <= 10,
                y1 - y0 <= 10,
                cells == (x1 - x0) * (y1 - y0),
        ;
    }
    [(b / d) as u8, (g / d) as u8, (r / d) as u8, (a / d) as u8]
}

/// Averages blocks of `SHRINK` by `SHRINK` pixels into one: the shrunk
/// image's size and pixels.
pub fn shrink(width: u32, height: u32, bgra: &[u8]) -> (r: (u32, u32, Vec<u8>))
    requires
        width * height * 4 <= u32::MAX,
        bgra@.len() >= width * height * 4,
    ensures
        r.0 == shrunk(width),
        r.1 == shrunk(height),
        r.2@.len() == r.0 * r.1 * 4,
        forall|x: int, y: int, c: int|
            0 <= x < r.0 && 0 <= y < r.1 && 0 <= c < 4 ==> #[trigger] r.2@[(y * r.0 + x) * 4 + c]
                == rect_mean(
                bgra@,
                width as int,
                c,
                x * SHRINK,
                min(x * SHRINK + SHRINK, width as int),
                y * SHRINK,
                min(y * SHRINK + SHRINK, height as int),
            ),
{
    let out_w: u32 = if width / SHRINK >= 1 {
        width / SHRINK
    } else {
        1
    };
    let out_h: u32 = if height / SHRINK >= 1 {
        height / SHRINK
    } else {
        1
    };
    proof {
        assert(out_w * out_h * 4 <= u32::MAX) by (nonlinear_arith)
            requires
                width * height * 4 <= u32::MAX,
                out_w == if width / 10 >= 1 {
                    width / 10
                } else {
                    1
                },
                out_h == if height / 10 >= 1 {
                    height / 10
                } else {
                    1
                },
        ;
    }
    let total = (out_w * out_h * 4) as usize;
    let mut out: Vec<u8> = Vec::new();
    let mut n: usize = 0;
    while n < total
        invariant
            n <= total,
            out@.len() == n,
            forall|k: int| 0 <= k < n ==> out@[k] == 0,
        decreases total - n,
    {
        out.push(0);
        n += 1;
    }
    let mut y: u32 = 0;
    while y < out_h
        invariant
            y <= out_h,
            out_w == shrunk(width),
            out_h == shrunk(height),
            out_w * out_h * 4 <= u32::MAX,
            total == out_w * out_h * 4,
            out@.len() == total,
            width * height * 4 <= u32::MAX,
            bgra@.len() >= width * height * 4,
            forall|x: int, yy: int, c: int|
                0 <= x < out_w && 0 <= yy < y && 0 <= c < 4 ==> #[trigger] out@[(yy * out_w + x)
                    * 4 + c] == rect_mean(
                    bgra@,
                    width as int,
                    c,
                    x * SHRINK,
                    min(x * SHRINK + SHRINK, width as int),
                    yy * SHRINK,
                    min(yy * SHRINK + SHRINK, height as int),
                ),
        decreases out_h - y,
    {
        let mut x: u32 = 0;
        while x < out_w
            invariant
                x <= out_w,
                y < out_h,
                out_w == shrunk(width),
                out_h == shrunk(height),
                out_w * out_h * 4 <= u32::MAX,
                total == out_w * out_h * 4,
                out@.len() == total,
                width * height * 4 <= u32::MAX,
                bgra@.len() >= width * height * 4,
                forall|xx: int, yy: int, c: int|
                    0 <= xx < out_w && 0 <= yy < out_h && 0 <= c < 4 && (yy < y || (yy == y && xx
                        < x)) ==> #[trigger] out@[(yy * out_w + xx) * 4 + c] == rect_mean(
                        bgra@,
                        width as int,
                        c,
                        xx * SHRINK,
                        min(xx * SHRINK + SHRINK, width as int),
                        yy * SHRINK,
                        min(yy * SHRINK + SHRINK, height as int),
                    ),
            decreases out_w - x,
        {
            proof {
                // The block starts inside the image, or at 0 for a tiny one.
                assert(x * 10 + 10 <= width || x == 0) by (nonlinear_arith)
                    requires
                        x < out_w,
                        out_w == if width / 10 >= 1 {
                            width / 10
                        } else {
                            1
                        },
                ;
                assert(y * 10 + 10 <= height || y == 0) by (nonlinear_arith)
                    requires
                        y < out_h,
                        out_h == if height / 10 >= 1 {
                            height / 10
                        } else {
                            1
                        },
                ;
            }
            let x0 = x * SHRINK;
            let y0 = y * SHRINK;
            let x1 = if x0 + SHRINK <= width {
                x0 + SHRINK
            } else {
                width
            };
            let y1 = if y0 + SHRINK <= height {
                y0 + SHRINK
            } else {
                height
            };
            let px = rect_means(bgra, width, height, x0, x1, y0, y1);
            proof {
                lemma_index_bound(out_w as int, out_h as int, x as int, y as int);
            }
            let o = ((y * out_w + x) * 4) as usize;
            let ghost before = out@;
            store_pixel(&mut out, o, &px);
            proof {
                assert forall|xx: int, yy: int, c: int|
                    0 <= xx < out_w && 0 <= yy < out_h && 0 <= c < 4 && (yy < y || (yy == y && xx
                        <= x)) implies #[trigger] out@[(yy * out_w + xx) * 4 + c] == rect_mean(
                    bgra@,
                    width as int,
                    c,
                    xx * SHRINK,
                    min(xx * SHRINK + SHRINK, width as int),
                    yy * SHRINK,
                    min(yy * SHRINK + SHRINK, height as int),
                ) by {
                    lemma_distinct_cells(out_w as int, xx, yy, x as int, y as int, c);
                    lemma_index_bound(out_w as int, out_h as int, xx, yy);
                    if yy == y && xx == x {
                    } else {
                        assert(out@[(yy * out_w + xx) * 4 + c] == before[(yy * out_w + xx) * 4
                            + c]);
                    }
                }
            }
            x += 1;
        }
        y += 1;
    }
    (out_w, out_h, out)
}

/// Writes one pixel's four bytes at `o`.
fn store_pixel(out: &mut Vec<u8>, o: usize, px: &[u8; 4])
    requires
        o + 4 <= old(out).len(),
    ensures
        final(out)@.len() == old(out)@.len(),
        forall|k: int|
            0 <= k < final(out)@.len() ==> #[trigger] final(out)@[k] == if o <= k < o + 4 {
                px@[k - o]
            } else {
                old(out)@[k]
            },
{
    out.set(o, px[0]);
    out.set(o + 1, px[1]);
    out.set(o + 2, px[2]);
    out.set(o + 3, px[3]);
}

/// Different pixels occupy different bytes, and a pixel's channels are its
/// own four bytes.
proof fn lemma_distinct_cells(w: int, xx: int, yy: int, x: int, y: int, c: int)
    requires
        0 <= xx < w,
        0 <= x < w,
        0 <= yy,
        0 <= y,
        0 <= c < 4,
    ensures
        (yy == y && xx == x) ==> (yy * w + xx) * 4 + c == (y * w + x) * 4 + c,
        !(yy == y && xx == x) ==> ((yy * w + xx) * 4 + c < (y * w + x) * 4 || (yy * w + xx) * 4
            + c > (y * w + x) * 4 + 3),
{
    if !(yy == y && xx == x) {
        assert(yy * w + xx != y * w + x) by (nonlinear_arith)
            requires
                0 <= xx < w,
                0 <= x < w,
                !(yy == y && xx == x),
        ;
    }
}

/// One box-blur pass: each pixel becomes the mean of the pixels within
/// `RADIUS` of it that lie inside the image. Bytes past the image stay 0.
#[verifier::rlimit(40)]
pub fn box_blur(width: u32, height: u32, src: &[u8]) -> (r: Vec<u8>)
    requires
        width * height * 4 <= u32::MAX,
        src@.len() >= width * height * 4,
    ensures
        r@.len() == src@.len(),
        forall|x: int, y: int, c: int|
            0 <= x < width && 0 <= y < height && 0 <= c < 4 ==> #[trigger] r@[(y * width + x) * 4
                + c] == rect_mean(
                src@,
                width as int,
                c,
                max(x - RADIUS, 0),
                min(x + RADIUS + 1, width as int),
                max(y - RADIUS, 0),
                min(y + RADIUS + 1, height as int),
            ),
        forall|k: int| width * height * 4 <= k < r@.len() ==> r@[k] == 0,
{
    let mut out: Vec<u8> = Vec::new();
    let mut n: usize = 0;
    while n < src.len()
        invariant
            n <= src@.len(),
            out@.len() == n,
            forall|k: int| 0 <= k < n ==> out@[k] == 0,
        decreases src.len() - n,
    {
        out.push(0);
        n += 1;
    }
    let mut y: u32 = 0;
    while y < height
        invariant
            y <= height,
            out@.len() == src@.len(),
            width * height * 4 <= u32::MAX,
            src@.len() >= width * height * 4,
            forall|k: int| width * height * 4 <= k < out@.len() ==> out@[k] == 0,
            forall|x: int, yy: int, c: int|
                0 <= x < width && 0 <= yy < y && 0 <= c < 4 ==> #[trigger] out@[(yy * width + x)
                    * 4 + c] == rect_mean(
                    src@,
                    width as int,
                    c,
                    max(x - RADIUS, 0),
                    min(x + RADIUS + 1, width as int),
                    max(yy - RADIUS, 0),
                    min(yy + RADIUS + 1, height as int),
                ),
        decreases height - y,
    {
        let mut x: u32 = 0;
        while x < width
            invariant
                x <= width,
                y < height,
                out@.len() == src@.len(),
                width * height * 4 <= u32::MAX,
                src@.len() >= width * height * 4,
                forall|k: int| width * height * 4 <= k < out@.len() ==> out@[k] == 0,
                forall|xx: int, yy: int, c: int|
                    0 <= xx < width && 0 <= yy < height && 0 <= c < 4 && (yy < y || (yy == y && xx
                        < x)) ==> #[trigger] out@[(yy * width + xx) * 4 + c] == rect_mean(
                        src@,
                        width as int,
                        c,
                        max(xx - RADIUS, 0),
                        min(xx + RADIUS + 1, width as int),
                        max(yy - RADIUS, 0),
                        min(yy + RADIUS + 1, height as int),
                    ),
            decreases width - x,
        {
            proof {
                assert(width * 4 <= u32::MAX && height * 4 <= u32::MAX) by (nonlinear_arith)
                    requires
                        width * height * 4 <= u32::MAX,
                        x < width,
                        y < height,
                ;
            }
            let x0 = if x >= RADIUS {
                x - RADIUS
            } else {
                0
            };
            let y0 = if y >= RADIUS {
                y - RADIUS
            } else {
                0
            };
            let x1 = if x + RADIUS + 1 <= width {
                x + RADIUS + 1
            } else {
                width
            };
            let y1 = if y + RADIUS + 1 <= height {
                y + RADIUS + 1
            } else {
                height
            };
            let px = rect_means(src, width, height, x0, x1, y0, y1);
            proof {
                lemma_index_bound(width as int, height as int, x as int, y as int);
            }
            let o = ((y * width + x) * 4) as usize;
            let ghost before = out@;
            store_pixel(&mut out, o, &px);
            proof {
                assert forall|xx: int, yy: int, c: int|
                    0 <= xx < width && 0 <= yy < height && 0 <= c < 4 && (yy < y || (yy == y && xx
                        <= x)) implies #[trigger] out@[(yy * width + xx) * 4 + c] == rect_mean(
                    src@,
                    width as int,
                    c,
                    max(xx - RADIUS, 0),
                    min(xx + RADIUS + 1, width as int),
                    max(yy - RADIUS, 0),
                    min(yy + RADIUS + 1, height as int),
                ) by {
                    lemma_distinct_cells(width as int, xx, yy, x as int, y as int, c);
                    lemma_index_bound(width as int, height as int, xx, yy);
                    if yy == y && xx == x {
                    } else {
                        assert(out@[(yy * width + xx) * 4 + c] == before[(yy * width + xx) * 4
                            + c]);
                    }
                }
            }
            x += 1;
        }
        y += 1;
    }
    out
}

/// `out` is `src` (`w` by `h`) shrunk as `shrink` does it.
pub open spec fn is_shrunk(src: Seq<u8>, w: u32, h: u32, out: Seq<u8>) -> bool {
    let (ow, oh) = (shrunk(w), shrunk(h));
    &&& out.len() == ow * oh * 4
    &&& forall|x: int, y: int, c: int|
        0 <= x < ow && 0 <= y < oh && 0 <= c < 4 ==> #[trigger] out[(y * ow + x) * 4 + c]
            == rect_mean(
            src,
            w as int,
            c,
            x * SHRINK,
            min(x * SHRINK + SHRINK, w as int),
            y * SHRINK,
            min(y * SHRINK + SHRINK, h as int),
        )
}

/// `out` is one box-blur pass over `src` (`w` by `h`), as `box_blur` makes it.
pub open spec fn is_blurred(src: Seq<u8>, w: int, h: int, out: Seq<u8>) -> bool {
    &&& out.len() == src.len()
    &&& forall|x: int, y: int, c: int|
        0 <= x < w && 0 <= y < h && 0 <= c < 4 ==> #[trigger] out[(y * w + x) * 4 + c]
            == rect_mean(
            src,
            w,
            c,
            max(x - RADIUS, 0),
            min(x + RADIUS + 1, w),
            max(y - RADIUS, 0),
            min(y + RADIUS + 1, h),
        )
    &&& forall|k: int| w * h * 4 <= k < out.len() ==> out[k] == 0
}

/// `out` is `src` after `n` box-blur passes.
pub open spec fn blurred_times(src: Seq<u8>, w: int, h: int, n: nat, out: Seq<u8>) -> bool
    decreases n,
{
    if n == 0 {
        out == src
    } else {
        exists|mid: Seq<u8>| blurred_times(src, w, h, (n - 1) as nat, mid) && is_blurred(mid, w, h, out)
    }
}

proof fn lemma_shrunk_fits(w: u32, h: u32)
    requires
        w * h * 4 <= u32::MAX,
    ensures
        shrunk(w) * shrunk(h) * 4 <= u32::MAX,
{
    let (a, b) = (shrunk(w), shrunk(h));
    let (wi, hi) = (w as int, h as int);
    assert(a == 1 || (1 <= a && a * 10 <= wi));
    assert(b == 1 || (1 <= b && b * 10 <= hi));
    assert(a * b * 4 <= u32::MAX) by (nonlinear_arith)
        requires
            a == 1 || (1 <= a && a * 10 <= wi),
            b == 1 || (1 <= b && b * 10 <= hi),
            0 <= wi <= u32::MAX,
            0 <= hi <= u32::MAX,
            wi * hi * 4 <= u32::MAX,
    ;
}

/// The frosted backdrop of a `width` by `height` snapshot: shrunk, then
/// box-blurred `PASSES` times. Answers its size and pixels.
pub fn frost(width: u32, height: u32, bgra: &[u8]) -> (r: (u32, u32, Vec<u8>))
    requires
        width * height * 4 <= u32::MAX,
        bgra@.len() >= width * height * 4,
    ensures
        r.0 == shrunk(width),
        r.1 == shrunk(height),
        exists|s: Seq<u8>|
            is_shrunk(bgra@, width, height, s) && blurred_times(
                s,
                r.0 as int,
                r.1 as int,
                PASSES as nat,
                r.2@,
            ),
{
    let (w, h, first) = shrink(width, height, bgra);
    proof {
        lemma_shrunk_fits(width, height);
    }
    let ghost s = first@;
    assert(is_shrunk(bgra@, width, height, s));
    let mut small = first;
    let mut i: usize = 0;
    while i < PASSES
        invariant
            i <= PASSES,
            w == shrunk(width),
            h == shrunk(height),
            w * h * 4 <= u32::MAX,
            small@.len() == w * h * 4,
            blurred_times(s, w as int, h as int, i as nat, small@),
        decreases PASSES - i,
    {
        let ghost before = small@;
        small = box_blur(w, h, &small);
        assert(is_blurred(before, w as int, h as int, small@));
        assert(blurred_times(s, w as int, h as int, i as nat, before));
        i += 1;
    }
    (w, h, small)
}

} // verus!
