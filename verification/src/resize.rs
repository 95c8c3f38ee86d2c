//! Fit-within resize arithmetic.
//!
//! A decoded image of `w0 x h0` pixels is scaled to fit inside a `bw x bh`
//! bounding box: when it already fits it is left alone (no upscaling), and
//! otherwise it is scaled down, preserving the aspect ratio to within one
//! rounding step, so that the binding dimension meets its bound exactly.

use vstd::prelude::*;
use vstd::arithmetic::div_mod::lemma_div_pos_is_pos;
use vstd::arithmetic::div_mod::lemma_fundamental_div_mod;
use vstd::arithmetic::div_mod::lemma_mod_bound;
use vstd::arithmetic::div_mod::lemma_multiply_divide_lt;

verus! {

/// Clamps an integer to at least one: a thumbnail dimension never collapses
/// to zero pixels.
pub open spec fn at_least_one(x: int) -> int {
    if x < 1 {
        1
    } else {
        x
    }
}

/// The dimensions the thumbnail of a `w0 x h0` image gets inside a
/// `bw x bh` box: unchanged when the image already fits, otherwise scaled
/// down with round-to-nearest so the binding dimension meets its bound.
pub open spec fn spec_fit_dims(w0: u32, h0: u32, bw: u32, bh: u32) -> (int, int) {
    if w0 <= bw && h0 <= bh {
        (w0 as int, h0 as int)
    } else if w0 * bh <= h0 * bw {
        ((at_least_one((w0 * bh + h0 / 2) / (h0 as int)), bh as int))
    } else {
        ((bw as int, at_least_one((h0 * bw + w0 / 2) / (w0 as int))))
    }
}

/// Rounded division stays under `k` when the numerator is under `d * k`.
proof fn lemma_rounded_div_le(a: int, d: int, k: int)
    requires
        1 <= d,
        0 <= a,
        1 <= k,
        a <= d * k,
    ensures
        1 <= at_least_one((a + d / 2) / d) <= k,
{
    assert(a + d / 2 < d * (k + 1)) by (nonlinear_arith)
        requires
            1 <= d,
            a <= d * k,
    ;
    lemma_multiply_divide_lt(a + d / 2, d, k + 1);
    lemma_div_pos_is_pos(a + d / 2, d);
}

/// Rounded division moves the cross product by at most `d`.
proof fn lemma_rounded_div_aspect(a: int, d: int)
    requires
        1 <= d,
        0 <= a,
    ensures
        at_least_one((a + d / 2) / d) * d <= a + d,
        a <= at_least_one((a + d / 2) / d) * d + d,
{
    let q = (a + d / 2) / d;
    lemma_fundamental_div_mod(a + d / 2, d);
    lemma_mod_bound(a + d / 2, d);
    lemma_div_pos_is_pos(a + d / 2, d);
    // a + d/2 == d * q + r with 0 <= r < d, so d * q is within d of a.
    assert(d * q <= a + d / 2);
    assert(a + d / 2 < d * q + d);
    if q < 1 {
        assert(q == 0);
        assert(d * q == 0) by (nonlinear_arith)
            requires
                q == 0,
        ;
        assert(a < d);
        assert(at_least_one(q) == 1);
    } else {
        let t = at_least_one(q);
        assert(t == q);
        assert(t * d == d * q) by (nonlinear_arith)
            requires
                t == q,
        ;
    }
}

/// Rearranges the rounding bounds of the width-binding branch into the
/// cross-product form of the aspect-ratio statement.
proof fn lemma_aspect_bridge(w: int, h: int, cw: int, th: int, a: int)
    requires
        0 <= h,
        a <= th * w + w,
        th * w <= a + w,
        a == h * cw,
    ensures
        cw * h <= w * th + w + h,
        w * th <= cw * h + w + h,
{
    assert(cw * h <= w * th + w + h) by (nonlinear_arith)
        requires
            0 <= h,
            a <= th * w + w,
            a == h * cw,
    ;
    assert(w * th <= cw * h + w + h) by (nonlinear_arith)
        requires
            0 <= h,
            th * w <= a + w,
            a == h * cw,
    ;
}

/// The resize bound: inside a positive bounding box, the fitted dimensions
/// are positive, never exceed the box, never exceed the source (no
/// upscaling), and preserve the aspect ratio to within one rounding step of
/// the cross products.
pub proof fn lemma_fit_dims_bounds(w0: u32, h0: u32, bw: u32, bh: u32)
    requires
        1 <= w0,
        1 <= h0,
        1 <= bw,
        1 <= bh,
    ensures
        ({
            let (tw, th) = spec_fit_dims(w0, h0, bw, bh);
            &&& 1 <= tw && tw <= bw && tw <= w0
            &&& 1 <= th && th <= bh && th <= h0
            &&& tw * (h0 as int) <= (w0 as int) * th + (w0 as int) + (h0 as int)
            &&& (w0 as int) * th <= tw * (h0 as int) + (w0 as int) + (h0 as int)
        }),
{
    let w = w0 as int;
    let h = h0 as int;
    let cw = bw as int;
    let ch = bh as int;
    if w0 <= bw && h0 <= bh {
    } else if w0 * bh <= h0 * bw {
        // The height bound binds, so the box is shorter than the image.
        assert(ch <= h) by (nonlinear_arith)
            requires
                w * ch <= h * cw,
                !(w <= cw && h <= ch),
                1 <= w && 1 <= h && 1 <= cw && 1 <= ch,
        ;
        let a = w * ch;
        assert(0 <= a && a <= h * cw) by (nonlinear_arith)
            requires
                1 <= w && 1 <= ch,
                w * ch <= h * cw,
                a == w * ch,
        ;
        assert(a <= h * w) by (nonlinear_arith)
            requires
                ch <= h,
                1 <= w,
                a == w * ch,
        ;
        lemma_rounded_div_le(a, h, cw);
        lemma_rounded_div_le(a, h, w);
        lemma_rounded_div_aspect(a, h);
        let tw = at_least_one((a + h / 2) / h);
        assert(tw * h <= a + h);
        assert(a <= tw * h + h);
        assert(spec_fit_dims(w0, h0, bw, bh) == (tw, ch));
        assert(w * ch == a);
        assert(tw * h <= w * ch + w + h);
        assert(w * ch <= tw * h + w + h);
    } else {
        // The width bound binds, so the box is narrower than the image.
        assert(cw <= w) by (nonlinear_arith)
            requires
                h * cw < w * ch,
                !(w <= cw && h <= ch),
                1 <= w && 1 <= h && 1 <= cw && 1 <= ch,
        ;
        let a = h * cw;
        assert(0 <= a && a <= w * ch) by (nonlinear_arith)
            requires
                1 <= h && 1 <= cw,
                h * cw < w * ch,
                a == h * cw,
        ;
        assert(a <= w * h) by (nonlinear_arith)
            requires
                cw <= w,
                1 <= h,
                a == h * cw,
        ;
        lemma_rounded_div_le(a, w, ch);
        lemma_rounded_div_le(a, w, h);
        lemma_rounded_div_aspect(a, w);
        let th = at_least_one((a + w / 2) / w);
        assert(th * w <= a + w);
        assert(a <= th * w + w);
        assert(spec_fit_dims(w0, h0, bw, bh) == (cw, th));
        assert(h * cw == a);
        lemma_aspect_bridge(w, h, cw, th, a);
    }
}

/// Computes the fitted thumbnail dimensions for a `w0 x h0` image inside a
/// `bw x bh` bounding box.
pub fn fit_dimensions(w0: u32, h0: u32, bw: u32, bh: u32) -> (r: (u32, u32))
    requires
        1 <= w0,
        1 <= h0,
        1 <= bw,
        1 <= bh,
    ensures
        r.0 as int == spec_fit_dims(w0, h0, bw, bh).0,
        r.1 as int == spec_fit_dims(w0, h0, bw, bh).1,
        r.0 <= bw && r.1 <= bh && r.0 <= w0 && r.1 <= h0 && 1 <= r.0 && 1 <= r.1,
{
    proof {
        lemma_fit_dims_bounds(w0, h0, bw, bh);
    }
    if w0 <= bw && h0 <= bh {
        return (w0, h0);
    }
    let w = w0 as u64;
    let h = h0 as u64;
    let cw = bw as u64;
    let ch = bh as u64;
    proof {
        assert(w0 as int * bh as int <= 0xffff_fffe_0000_0001) by (nonlinear_arith)
            requires
                w0 <= 0xffff_ffffu32,
                bh <= 0xffff_ffffu32,
        ;
        assert(h0 as int * bw as int <= 0xffff_fffe_0000_0001) by (nonlinear_arith)
            requires
                h0 <= 0xffff_ffffu32,
                bw <= 0xffff_ffffu32,
        ;
    }
    if w * ch <= h * cw {
        let num = w * ch + h / 2;
        let q = num / h;
        let tw = if q < 1 {
            1u64
        } else {
            q
        };
        (tw as u32, bh)
    } else {
        let num = h * cw + w / 2;
        let q = num / w;
        let th = if q < 1 {
            1u64
        } else {
            q
        };
        (bw, th as u32)
    }
}

} // verus!
