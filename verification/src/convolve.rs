//! Tap geometry of the separable convolution.
//!
//! A 1-D kernel with discretization count `s` has `2*s + 1` taps; tap `t`
//! of the kernel, applied at position `i` of a line (a row or a column),
//! reads source position `i - s + t`. Taps whose source position falls
//! outside the line are dropped from the sum — not clamped, not mirrored,
//! and the partial sum is not renormalized. Border pixels therefore receive
//! an under-weighted sum; that is the deliberate edge policy of this kernel
//! family, and the contracts below state it exactly rather than repair it.
//!
//! The kept taps at any position form one contiguous run, so a pixel's taps
//! are described by a span `[start, end)` of tap indices. From the spans
//! this module builds whole-image convolution plans: for every output pixel,
//! the exact list of (kernel tap, source pixel) pairs its sum ranges over,
//! with every source index proved inside the buffer. A caller executing a
//! plan performs no index arithmetic of its own.

use vstd::arithmetic::div_mod::{lemma_fundamental_div_mod, lemma_fundamental_div_mod_converse, lemma_mod_bound};
use vstd::prelude::*;

use crate::image::{lemma_row_major_in_bounds, row_major};

verus! {

/// How many taps a kernel with discretization count `s` has.
pub open spec fn kernel_len(s: int) -> int {
    2 * s + 1
}

/// The source position read by tap `t` applied at line position `i`.
pub open spec fn tap_source(i: int, s: int, t: int) -> int {
    i - s + t
}

/// Whether tap `t`, applied at position `i` of a line of length `n`, is
/// kept: its source position must lie inside the line.
pub open spec fn tap_kept(i: int, s: int, n: int, t: int) -> bool {
    0 <= t < kernel_len(s) && 0 <= tap_source(i, s, t) < n
}

/// The first kept tap at position `i`: taps before it would read left of
/// (or above) the line.
pub open spec fn span_start(i: int, s: int) -> int {
    if s - i > 0 {
        s - i
    } else {
        0
    }
}

/// One past the last kept tap at position `i` of a line of length `n`:
/// taps from here on would read right of (or below) the line.
pub open spec fn span_end(i: int, s: int, n: int) -> int {
    if kernel_len(s) <= n + s - i {
        kernel_len(s)
    } else {
        n + s - i
    }
}

/// The kept taps at a position are exactly the span `[start, end)`.
pub proof fn lemma_span_is_kept_taps(i: int, s: int, n: int)
    requires
        0 <= i < n,
        0 <= s,
    ensures
        0 <= span_start(i, s) <= span_end(i, s, n) <= kernel_len(s),
        forall|t: int| span_start(i, s) <= t < span_end(i, s, n) <==> tap_kept(i, s, n, t),
{
}

/// A pixel farther than `s` from both ends of its line keeps every tap:
/// the dropped-tap policy only touches the border.
pub proof fn lemma_interior_keeps_all_taps(i: int, s: int, n: int)
    requires
        0 <= s <= i < n - s,
    ensures
        span_start(i, s) == 0,
        span_end(i, s, n) == kernel_len(s),
        span_end(i, s, n) - span_start(i, s) == kernel_len(s),
{
}

/// A pixel within `s` of either end of its line keeps strictly fewer than
/// `2*s + 1` taps: its sum is partial, and stays partial — nothing
/// renormalizes it.
pub proof fn lemma_border_drops_taps(i: int, s: int, n: int)
    requires
        0 <= i < n,
        kernel_len(s) <= n,
        i < s || n - s <= i,
    ensures
        span_end(i, s, n) - span_start(i, s) < kernel_len(s),
{
}

/// The span of kept taps for position `i` of a line of length `n`, as a
/// half-open range of tap indices.
pub fn tap_span(i: usize, s: usize, n: usize) -> (r: (usize, usize))
    requires
        i < n,
        2 * s + 1 <= usize::MAX,
        n + s <= usize::MAX,
    ensures
        r.0 == span_start(i as int, s as int),
        r.1 == span_end(i as int, s as int, n as int),
        r.0 <= r.1 <= kernel_len(s as int),
        forall|t: int| r.0 <= t < r.1 <==> #[trigger] tap_kept(i as int, s as int, n as int, t),
{
    proof {
        lemma_span_is_kept_taps(i as int, s as int, n as int);
    }
    let lo = if s > i {
        s - i
    } else {
        0
    };
    let cap = 2 * s + 1;
    let avail = n + s - i;
    let hi = if cap <= avail {
        cap
    } else {
        avail
    };
    (lo, hi)
}

/// One term of a convolution sum: multiply kernel tap `kernel_index` by the
/// pixel at flat buffer position `source`.
#[derive(Clone, Copy, Debug, PartialEq, Eq, Structural)]
pub struct Tap {
    /// Which tap of the 1-D kernel this term uses.
    pub kernel_index: usize,
    /// The flat, row-major position of the pixel this term reads.
    pub source: usize,
}

/// The tap list of output pixel `p` in a horizontal pass over a `w`-wide
/// image: one entry per kept tap, in tap order, each reading from pixel
/// `p`'s own row.
pub open spec fn h_pixel_taps_ok(taps: Seq<Tap>, p: int, w: int, s: int) -> bool {
    let x = p % w;
    let y = p / w;
    &&& taps.len() == span_end(x, s, w) - span_start(x, s)
    &&& forall|k: int|
        0 <= k < taps.len() ==> {
            let t = span_start(x, s) + k;
            (#[trigger] taps[k]).kernel_index == t && taps[k].source == row_major(
                tap_source(x, s, t),
                y,
                w,
            )
        }
}

/// The tap list of output pixel `p` in a vertical pass over a `w` by `h`
/// image: one entry per kept tap, in tap order, each reading from pixel
/// `p`'s own column.
pub open spec fn v_pixel_taps_ok(taps: Seq<Tap>, p: int, w: int, h: int, s: int) -> bool {
    let x = p % w;
    let y = p / w;
    &&& taps.len() == span_end(y, s, h) - span_start(y, s)
    &&& forall|k: int|
        0 <= k < taps.len() ==> {
            let t = span_start(y, s) + k;
            (#[trigger] taps[k]).kernel_index == t && taps[k].source == row_major(
                x,
                tap_source(y, s, t),
                w,
            )
        }
}

/// Every term of a well-formed horizontal tap list is safe to execute: the
/// kernel tap exists and the source pixel lies inside the buffer. This is
/// the bounds argument for the whole pass, made once, by proof.
pub proof fn lemma_h_taps_in_bounds(taps: Seq<Tap>, p: int, w: int, h: int, s: int)
    requires
        h_pixel_taps_ok(taps, p, w, s),
        0 <= p < w * h,
        1 <= w,
        1 <= h,
        0 <= s,
    ensures
        forall|k: int|
            0 <= k < taps.len() ==> (#[trigger] taps[k]).kernel_index < kernel_len(s)
                && 0 <= taps[k].source < w * h,
{
    let x = p % w;
    let y = p / w;
    lemma_mod_bound(p, w);
    lemma_fundamental_div_mod(p, w);
    assert(0 <= y < h) by (nonlinear_arith)
        requires
            0 <= p < w * h,
            p == w * y + x,
            0 <= x < w,
    ;
    lemma_span_is_kept_taps(x, s, w);
    assert forall|k: int| 0 <= k < taps.len() implies (#[trigger] taps[k]).kernel_index
        < kernel_len(s) && 0 <= taps[k].source < w * h by {
        let t = span_start(x, s) + k;
        assert(tap_kept(x, s, w, t));
        lemma_row_major_in_bounds(tap_source(x, s, t), y, w, h);
    }
}

/// Every term of a well-formed vertical tap list is safe to execute: the
/// kernel tap exists and the source pixel lies inside the buffer.
pub proof fn lemma_v_taps_in_bounds(taps: Seq<Tap>, p: int, w: int, h: int, s: int)
    requires
        v_pixel_taps_ok(taps, p, w, h, s),
        0 <= p < w * h,
        1 <= w,
        1 <= h,
        0 <= s,
    ensures
        forall|k: int|
            0 <= k < taps.len() ==> (#[trigger] taps[k]).kernel_index < kernel_len(s)
                && 0 <= taps[k].source < w * h,
{
    let x = p % w;
    let y = p / w;
    lemma_mod_bound(p, w);
    lemma_fundamental_div_mod(p, w);
    assert(0 <= y < h) by (nonlinear_arith)
        requires
            0 <= p < w * h,
            p == w * y + x,
            0 <= x < w,
    ;
    lemma_span_is_kept_taps(y, s, h);
    assert forall|k: int| 0 <= k < taps.len() implies (#[trigger] taps[k]).kernel_index
        < kernel_len(s) && 0 <= taps[k].source < w * h by {
        let t = span_start(y, s) + k;
        assert(tap_kept(y, s, h, t));
        lemma_row_major_in_bounds(x, tap_source(y, s, t), w, h);
    }
}

/// A horizontal tap list is full — `2*s + 1` terms — exactly when its
/// pixel is farther than `s` from both ends of its row; every border
/// pixel's sum ranges over strictly fewer terms, and nothing renormalizes
/// the deficit.
pub proof fn lemma_h_full_sum_iff_interior(taps: Seq<Tap>, p: int, w: int, s: int)
    requires
        h_pixel_taps_ok(taps, p, w, s),
        0 <= s,
        kernel_len(s) <= w,
    ensures
        taps.len() <= kernel_len(s),
        taps.len() == kernel_len(s) <==> (s <= p % w < w - s),
{
    let x = p % w;
    lemma_mod_bound(p, w);
    lemma_span_is_kept_taps(x, s, w);
    if s <= x < w - s {
        lemma_interior_keeps_all_taps(x, s, w);
    } else {
        lemma_border_drops_taps(x, s, w);
    }
}

/// A vertical tap list is full — `2*s + 1` terms — exactly when its pixel
/// is farther than `s` from both ends of its column.
pub proof fn lemma_v_full_sum_iff_interior(taps: Seq<Tap>, p: int, w: int, h: int, s: int)
    requires
        v_pixel_taps_ok(taps, p, w, h, s),
        0 <= p < w * h,
        0 <= s,
        1 <= w,
        kernel_len(s) <= h,
    ensures
        taps.len() <= kernel_len(s),
        taps.len() == kernel_len(s) <==> (s <= p / w < h - s),
{
    let x = p % w;
    let y = p / w;
    lemma_mod_bound(p, w);
    lemma_fundamental_div_mod(p, w);
    assert(0 <= y < h) by (nonlinear_arith)
        requires
            0 <= p < w * h,
            p == w * y + x,
            0 <= x < w,
    ;
    lemma_span_is_kept_taps(y, s, h);
    if s <= y < h - s {
        lemma_interior_keeps_all_taps(y, s, h);
    } else {
        lemma_border_drops_taps(y, s, h);
    }
}

/// The convolution plan of a horizontal pass over a `w` by `h` image with a
/// kernel of discretization count `s`: for each output pixel in row-major
/// order, exactly the terms its sum ranges over under the dropped-tap
/// border policy.
#[verifier::loop_isolation(false)]
pub fn horizontal_plan(w: usize, h: usize, s: usize) -> (r: Vec<Vec<Tap>>)
    requires
        1 <= s,
        2 * s + 1 <= w,
        2 * s + 1 <= h,
        w * h <= usize::MAX,
    ensures
        r@.len() == w * h,
        forall|p: int|
            0 <= p < r@.len() ==> #[trigger] h_pixel_taps_ok(r@[p]@, p, w as int, s as int),
{
    proof {
        assert(2 * w <= w * h && 2 * h <= w * h) by (nonlinear_arith)
            requires
                3 <= w,
                3 <= h,
                w * h <= usize::MAX,
        ;
    }
    let mut plan: Vec<Vec<Tap>> = Vec::new();
    let mut y: usize = 0;
    while y < h
        invariant
            y <= h,
            plan@.len() == y * w,
            forall|p: int|
                0 <= p < plan@.len() ==> #[trigger] h_pixel_taps_ok(plan@[p]@, p, w as int, s as int),
        decreases h - y,
    {
        let mut x: usize = 0;
        proof {
            lemma_row_major_in_bounds(0, y as int, w as int, h as int);
        }
        let row = y * w;
        while x < w
            invariant
                x <= w,
                row == y * w,
                plan@.len() == y * w + x,
                forall|p: int|
                    0 <= p < plan@.len() ==> #[trigger] h_pixel_taps_ok(
                        plan@[p]@,
                        p,
                        w as int,
                        s as int,
                    ),
        decreases w - x,
        {
            let (lo, hi) = tap_span(x, s, w);
            let mut taps: Vec<Tap> = Vec::new();
            let mut t = lo;
            while t < hi
                invariant
                    lo <= t <= hi,
                    taps@.len() == t - lo,
                    forall|k: int|
                        0 <= k < taps@.len() ==> {
                            let tk = span_start(x as int, s as int) + k;
                            (#[trigger] taps@[k]).kernel_index == tk && taps@[k].source
                                == row_major(
                                tap_source(x as int, s as int, tk),
                                y as int,
                                w as int,
                            )
                        },
                decreases hi - t,
            {
                proof {
                    assert(tap_kept(x as int, s as int, w as int, t as int));
                    lemma_row_major_in_bounds(
                        tap_source(x as int, s as int, t as int),
                        y as int,
                        w as int,
                        h as int,
                    );
                }
                let sx = x + t - s;
                taps.push(Tap { kernel_index: t, source: row + sx });
                t = t + 1;
            }
            proof {
                lemma_row_major_in_bounds(x as int, y as int, w as int, h as int);
                lemma_fundamental_div_mod_converse(
                    (y * w + x) as int,
                    w as int,
                    y as int,
                    x as int,
                );
                lemma_span_is_kept_taps(x as int, s as int, w as int);
            }
            plan.push(taps);
            x = x + 1;
        }
        proof {
            assert((y + 1) * w == y * w + w) by (nonlinear_arith);
        }
        y = y + 1;
    }
    proof {
        assert(h * w == w * h) by (nonlinear_arith);
    }
    plan
}

/// The convolution plan of a vertical pass over a `w` by `h` image with a
/// kernel of discretization count `s`: for each output pixel in row-major
/// order, exactly the terms its sum ranges over under the dropped-tap
/// border policy.
#[verifier::loop_isolation(false)]
pub fn vertical_plan(w: usize, h: usize, s: usize) -> (r: Vec<Vec<Tap>>)
    requires
        1 <= s,
        2 * s + 1 <= w,
        2 * s + 1 <= h,
        w * h <= usize::MAX,
    ensures
        r@.len() == w * h,
        forall|p: int|
            0 <= p < r@.len() ==> #[trigger] v_pixel_taps_ok(r@[p]@, p, w as int, h as int, s as int),
{
    proof {
        assert(2 * w <= w * h && 2 * h <= w * h) by (nonlinear_arith)
            requires
                3 <= w,
                3 <= h,
                w * h <= usize::MAX,
        ;
    }
    let mut plan: Vec<Vec<Tap>> = Vec::new();
    let mut y: usize = 0;
    while y < h
        invariant
            y <= h,
            plan@.len() == y * w,
            forall|p: int|
                0 <= p < plan@.len() ==> #[trigger] v_pixel_taps_ok(
                    plan@[p]@,
                    p,
                    w as int,
                    h as int,
                    s as int,
                ),
        decreases h - y,
    {
        let (lo, hi) = tap_span(y, s, h);
        proof {
            lemma_row_major_in_bounds(0, y as int, w as int, h as int);
        }
        let row = y * w;
        let mut x: usize = 0;
        while x < w
            invariant
                x <= w,
                row == y * w,
                lo == span_start(y as int, s as int),
                hi == span_end(y as int, s as int, h as int),
                lo <= hi,
                plan@.len() == y * w + x,
                forall|p: int|
                    0 <= p < plan@.len() ==> #[trigger] v_pixel_taps_ok(
                        plan@[p]@,
                        p,
                        w as int,
                        h as int,
                        s as int,
                    ),
        decreases w - x,
        {
            let mut taps: Vec<Tap> = Vec::new();
            let mut t = lo;
            while t < hi
                invariant
                    lo <= t <= hi,
                    taps@.len() == t - lo,
                    forall|k: int|
                        0 <= k < taps@.len() ==> {
                            let tk = span_start(y as int, s as int) + k;
                            (#[trigger] taps@[k]).kernel_index == tk && taps@[k].source
                                == row_major(
                                x as int,
                                tap_source(y as int, s as int, tk),
                                w as int,
                            )
                        },
                decreases hi - t,
            {
                proof {
                    assert(tap_kept(y as int, s as int, h as int, t as int));
                    lemma_row_major_in_bounds(
                        x as int,
                        tap_source(y as int, s as int, t as int),
                        w as int,
                        h as int,
                    );
                }
                let sy = y + t - s;
                taps.push(Tap { kernel_index: t, source: sy * w + x });
                t = t + 1;
            }
            proof {
                lemma_row_major_in_bounds(x as int, y as int, w as int, h as int);
                lemma_fundamental_div_mod_converse(
                    (y * w + x) as int,
                    w as int,
                    y as int,
                    x as int,
                );
                lemma_span_is_kept_taps(y as int, s as int, h as int);
            }
            plan.push(taps);
            x = x + 1;
        }
        proof {
            assert((y + 1) * w == y * w + w) by (nonlinear_arith);
        }
        y = y + 1;
    }
    proof {
        assert(h * w == w * h) by (nonlinear_arith);
    }
    plan
}

} // verus!
