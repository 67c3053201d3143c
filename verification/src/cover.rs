//! Rounding the corners of a cover thumbnail: pixels outside the quarter
//! circles in the four corners become fully transparent.
use vstd::prelude::*;

verus! {

/// The corner radius actually used: at most half the width and half the
/// height.
pub open spec fn effective_radius(w: u32, h: u32, radius: u32) -> int {
    let half_w = (w / 2) as int;
    let half_h = (h / 2) as int;
    let r = if (radius as int) < half_w { radius as int } else { half_w };
    if r < half_h { r } else { half_h }
}

/// How far coordinate `c` (of `size`) lies inside a corner band of width
/// `r`, measured from the band's inner edge; 0 outside the bands.
pub open spec fn corner_offset(c: int, size: int, r: int) -> int {
    if c < r {
        r - 1 - c
    } else if c >= size - r {
        c - (size - r)
    } else {
        0
    }
}

/// Whether pixel `(x, y)` of a `w` by `h` image is made transparent.
pub open spec fn outside_rounded_corner(w: u32, h: u32, radius: u32, x: int, y: int) -> bool {
    let r = effective_radius(w, h, radius);
    let dx = corner_offset(x, w as int, r);
    let dy = corner_offset(y, h as int, r);
    w > 0 && h > 0 && r > 0 && dx > 0 && dy > 0 && dx * dx + dy * dy > r * r
}

/// The pixels `px` of a `w` by `h` RGBA image with the corners rounded.
pub open spec fn rounded(px: Seq<u8>, w: u32, h: u32, radius: u32) -> Seq<u8> {
    Seq::new(px.len(), |i: int|
        if i % 4 == 3 && outside_rounded_corner(w, h, radius, (i / 4) % (w as int), (i / 4) / (w as int)) {
            0u8
        } else {
            px[i]
        })
}

/// Rounding the corners twice is rounding them once.
pub proof fn law_rounding_idempotent(px: Seq<u8>, w: u32, h: u32, radius: u32)
    ensures
        rounded(rounded(px, w, h, radius), w, h, radius) == rounded(px, w, h, radius),
{
    assert(rounded(rounded(px, w, h, radius), w, h, radius) =~= rounded(px, w, h, radius));
}

proof fn lemma_offset_bounds(c: int, size: int, r: int)
    requires
        0 <= c < size,
        0 < r,
        2 * r <= size,
    ensures
        0 <= corner_offset(c, size, r) < r,
{
}

/// Makes transparent (alpha 0) the pixels of the `w` by `h` RGBA image
/// `pixels` (row by row, four bytes per pixel) that lie outside the rounded
/// corners of radius `radius`; every other byte is kept.
pub fn apply_rounded_corners_rgba(pixels: &mut Vec<u8>, w: u32, h: u32, radius: u32)
    requires
        old(pixels).len() == 4 * (w as int) * (h as int),
        effective_radius(w, h, radius) <= 32767,
    ensures
        final(pixels)@ == rounded(old(pixels)@, w, h, radius),
        final(pixels).len() == old(pixels).len(),
        forall|i: int| 0 <= i < old(pixels).len() ==> #[trigger] final(pixels)@[i] == (
            if i % 4 == 3 && outside_rounded_corner(w, h, radius, (i / 4) % (w as int), (i / 4) / (w as int)) {
                0u8
            } else {
                old(pixels)@[i]
            }),
{
    if w == 0 || h == 0 {
        assert(pixels@ =~= rounded(old(pixels)@, w, h, radius));
        return;
    }
    let half_w = w / 2;
    let half_h = h / 2;
    let r32 = if radius < half_w { radius } else { half_w };
    let r32 = if r32 < half_h { r32 } else { half_h };
    if r32 == 0 {
        assert(effective_radius(w, h, radius) == 0);
        assert(pixels@ =~= rounded(old(pixels)@, w, h, radius));
        return;
    }
    let r = r32 as i64;
    assert(r == effective_radius(w, h, radius));
    let wi = w as i64;
    let hi = h as i64;
    assert(r * r <= 32767 * 32767) by (nonlinear_arith)
        requires 0 < r <= 32767;
    let rr = r * r;
    let total = pixels.len() / 4;
    let ghost start = pixels@;
    let ghost wh = (w as int) * (h as int);
    assert(pixels.len() == 4 * wh) by (nonlinear_arith)
        requires pixels.len() == 4 * (w as int) * (h as int), wh == (w as int) * (h as int);
    assert(total == wh);
    let mut p: usize = 0;
    while p < total
        invariant
            0 < r <= 32767,
            r == effective_radius(w, h, radius),
            rr == r * r,
            wi == w as int,
            hi == h as int,
            w > 0,
            h > 0,
            total == (w as int) * (h as int),
            start.len() == 4 * total,
            pixels@.len() == start.len(),
            p <= total,
            forall|i: int| 0 <= i < start.len() ==> #[trigger] pixels@[i] == (
                if i / 4 < p && i % 4 == 3 && outside_rounded_corner(w, h, radius, (i / 4) % (w as int), (i / 4) / (w as int)) {
                    0u8
                } else {
                    start[i]
                }),
        decreases total - p,
    {
        let xu = p % (w as usize);
        let yu = p / (w as usize);
        proof {
            assert(0 <= xu < w) by (nonlinear_arith)
                requires xu == (p as int) % (w as int), w > 0;
            assert(0 <= yu < h) by (nonlinear_arith)
                requires yu == (p as int) / (w as int), w > 0, (p as int) < (w as int) * (h as int), 0 <= p;
        }
        let x = xu as i64;
        let y = yu as i64;
        proof {
            assert(2 * r <= w && 2 * r <= h);
            lemma_offset_bounds(x as int, w as int, r as int);
            lemma_offset_bounds(y as int, h as int, r as int);
        }
        let dx = if x < r { r - 1 - x } else if x >= wi - r { x - (wi - r) } else { 0 };
        let dy = if y < r { r - 1 - y } else if y >= hi - r { y - (hi - r) } else { 0 };
        assert(dx * dx < r * r && dy * dy < r * r && r * r <= 32767 * 32767) by (nonlinear_arith)
            requires 0 <= dx < r, 0 <= dy < r, r <= 32767;
        let cut = dx > 0 && dy > 0 && dx * dx + dy * dy > rr;
        let ghost before = pixels@;
        if cut {
            assert(4 * p + 3 < pixels.len());
            pixels.set(4 * p + 3, 0);
        }
        proof {
            assert(cut == outside_rounded_corner(w, h, radius, p as int % (w as int), p as int / (w as int)));
            assert forall|i: int| 0 <= i < start.len() implies #[trigger] pixels@[i] == (
                if i / 4 < p + 1 && i % 4 == 3 && outside_rounded_corner(w, h, radius, (i / 4) % (w as int), (i / 4) / (w as int)) {
                    0u8
                } else {
                    start[i]
                }) by {
                if i / 4 == p {
                    if i % 4 == 3 {
                        assert(i == 4 * p + 3);
                    } else {
                        assert(i != 4 * p + 3);
                        assert(pixels@[i] == before[i]);
                    }
                } else {
                    assert(i != 4 * p + 3);
                    assert(pixels@[i] == before[i]);
                }
            }
        }
        p = p + 1;
    }
    assert(pixels@ =~= rounded(start, w, h, radius));
}

} // verus!
