//! Button-row geometry and touch hit-testing.
//!
//! With `n` buttons across a strip of width `w`, the row is laid out with
//! `n + 1` equal gaps surrounding and separating the buttons:
//! `button_width = w / (n + 1)` and `spacing = w / (n + 1)^2`, so that button
//! `i` starts at `left_edge(i) = i * (button_width + spacing) + spacing`.
//! All of these are exact rationals with denominator `(n + 1)^2`; the spec
//! functions below keep them as scaled integers (numerators over that common
//! denominator), so hit-testing is decided with exact integer arithmetic and
//! no rounding at all.

use vstd::arithmetic::div_mod::lemma_fundamental_div_mod_converse;
use vstd::prelude::*;

verus! {

/// Pixel length of the strip's long axis (the logical row width).
pub const DFR_WIDTH: u32 = 2008;

/// Pixel length of the strip's short axis (the logical row thickness).
pub const DFR_HEIGHT: u32 = 64;

/// Common denominator of the layout rationals: `(n + 1)^2`.
pub open spec fn denom(n: int) -> int {
    (n + 1) * (n + 1)
}

/// Numerator of `left_edge(i)` over `denom(n)`.
///
/// `left_edge(i) = (i * (button_width + spacing) + spacing)` with
/// `button_width = w / (n + 1)` and `spacing = w / (n + 1)^2` simplifies to
/// `w * (i * (n + 2) + 1) / (n + 1)^2`.
pub open spec fn left_num(w: int, n: int, i: int) -> int {
    w * (i * (n + 2) + 1)
}

/// Numerator of `button_width` over `denom(n)`: `w / (n + 1) = w * (n + 1) / (n + 1)^2`.
pub open spec fn width_num(w: int, n: int) -> int {
    w * (n + 1)
}

/// Numerator of the right edge of button `i` over `denom(n)`.
pub open spec fn right_num(w: int, n: int, i: int) -> int {
    left_num(w, n, i) + width_num(w, n)
}

/// The rational abscissa `xn / xd` lies within button `i`'s horizontal span,
/// both edges included.
pub open spec fn x_within(w: int, n: int, i: int, xn: int, xd: int) -> bool {
    &&& xn * denom(n) >= left_num(w, n, i) * xd
    &&& xn * denom(n) <= right_num(w, n, i) * xd
}

/// The rational ordinate `yn / yd` lies strictly within the vertical band
/// `(0.09 * h, 0.91 * h)` — a deliberately taller band than the drawn
/// rectangle, to give touches vertical tolerance.
pub open spec fn y_within(h: int, yn: int, yd: int) -> bool {
    &&& 100 * yn > 9 * h * yd
    &&& 100 * yn < 91 * h * yd
}

/// A touch at the integer point `(x, y)` lands on button `i` of `n` in a
/// `w` by `h` strip.
pub open spec fn hit_spec(w: int, h: int, n: int, i: int, x: int, y: int) -> bool {
    &&& x_within(w, n, i, x, 1)
    &&& y_within(h, y, 1)
}

/// Cheap approximate bucket for a fresh touch-down: `floor(x / (w / n))`.
/// It ignores spacing and must be confirmed by a real hit-test.
pub open spec fn candidate_spec(w: int, n: int, x: int) -> int {
    (x * n) / w
}

/// Exact hit-test of the point `(x, y)` against button `idx` of `num`, on the
/// fixed strip size. True iff `x` lies in `[left_edge, left_edge + button_width]`
/// and `y` lies strictly inside the vertical tolerance band.
pub fn button_hit(num: u32, idx: u32, x: u32, y: u32) -> (r: bool)
    requires
        1 <= num <= 4096,
    ensures
        r == hit_spec(DFR_WIDTH as int, DFR_HEIGHT as int, num as int, idx as int, x as int, y as int),
{
    let w = DFR_WIDTH as u64;
    let n = num as u64;
    let i = idx as u64;
    proof {
        assert(i * (n + 2) <= 0xffff_ffffu64 * 4098) by (nonlinear_arith)
            requires
                i <= 0xffff_ffffu64,
                n <= 4096,
        ;
        assert((n + 1) * (n + 1) <= 4097u64 * 4097) by (nonlinear_arith)
            requires
                n <= 4096,
        ;
        assert((x as u64) * ((n + 1) * (n + 1)) <= 0xffff_ffffu64 * (4097 * 4097))
            by (nonlinear_arith)
            requires
                x <= 0xffff_ffffu32,
                n <= 4096,
        ;
    }
    let d: u64 = (n + 1) * (n + 1);
    let lx: u64 = w * (i * (n + 2) + 1);
    let wn: u64 = w * (n + 1);
    let xs: u64 = (x as u64) * d;
    if xs < lx || xs > lx + wn {
        return false;
    }
    let ys: u64 = 100 * (y as u64);
    ys > 9 * (DFR_HEIGHT as u64) && ys < 91 * (DFR_HEIGHT as u64)
}

/// Approximate bucket index for a fresh touch-down: `floor(x * num / width)`.
pub fn candidate_index(num: u32, x: u32) -> (r: u32)
    requires
        1 <= num <= 4096,
        x <= DFR_WIDTH,
    ensures
        r == candidate_spec(DFR_WIDTH as int, num as int, x as int),
        r <= num,
{
    proof {
        assert((x as u64) * (num as u64) <= 2008u64 * 4096) by (nonlinear_arith)
            requires
                x <= 2008,
                num <= 4096,
        ;
    }
    let p: u64 = (x as u64) * (num as u64);
    let q: u64 = p / (DFR_WIDTH as u64);
    proof {
        assert(q <= num) by (nonlinear_arith)
            requires
                q == ((x as u64) * (num as u64)) as int / (DFR_WIDTH as u64) as int,
                x <= 2008,
                1 <= num <= 4096,
        ;
    }
    q as u32
}

/// The exact center of button `i` — abscissa `(left_num + right_num) / (2 * denom)`,
/// ordinate `h / 2` — always registers as a hit.
pub proof fn lemma_hit_center(w: int, h: int, n: int, i: int)
    requires
        w >= 1,
        h >= 1,
        n >= 1,
        0 <= i < n,
    ensures
        x_within(w, n, i, left_num(w, n, i) + right_num(w, n, i), 2 * denom(n)),
        y_within(h, h, 2),
{
    let l = left_num(w, n, i);
    let r = right_num(w, n, i);
    let d = denom(n);
    assert(d > 0) by (nonlinear_arith)
        requires
            d == (n + 1) * (n + 1),
            n >= 1,
    ;
    assert(w * (n + 1) >= 0) by (nonlinear_arith)
        requires
            w >= 1,
            n >= 1,
    ;
    assert((l + r) * d >= l * (2 * d) && (l + r) * d <= r * (2 * d)) by (nonlinear_arith)
        requires
            l <= r,
            d > 0,
    ;
}

/// No hit is possible at an abscissa left of the strip or right of its width,
/// nor at an ordinate outside the vertical tolerance band.
pub proof fn lemma_miss_outside(w: int, h: int, n: int, i: int, x: int, y: int)
    requires
        w >= 1,
        n >= 1,
        0 <= i < n,
    ensures
        x < 0 ==> !x_within(w, n, i, x, 1),
        x > w ==> !x_within(w, n, i, x, 1),
        100 * y <= 9 * h || 100 * y >= 91 * h ==> !hit_spec(w, h, n, i, x, y),
{
    if x < 0 {
        assert(x * denom(n) < left_num(w, n, i) * 1) by (nonlinear_arith)
            requires
                x < 0,
                w >= 1,
                n >= 1,
                i >= 0,
        ;
    }
    if x > w {
        assert(x * denom(n) > right_num(w, n, i) * 1) by (nonlinear_arith)
            requires
                x > w,
                w >= 1,
                n >= 1,
                0 <= i < n,
        ;
    }
}

/// Hit regions of distinct buttons never overlap: the spacing gap of width
/// `w / (n + 1)^2` separates consecutive spans.
pub proof fn lemma_regions_disjoint(w: int, n: int, i: int, j: int, xn: int, xd: int)
    requires
        w >= 1,
        n >= 1,
        0 <= i < n,
        0 <= j < n,
        i != j,
        xd >= 1,
    ensures
        !(x_within(w, n, i, xn, xd) && x_within(w, n, j, xn, xd)),
{
    if x_within(w, n, i, xn, xd) && x_within(w, n, j, xn, xd) {
        if i < j {
            assert(false) by (nonlinear_arith)
                requires
                    xn * denom(n) >= left_num(w, n, j) * xd,
                    xn * denom(n) <= right_num(w, n, i) * xd,
                    w >= 1,
                    n >= 1,
                    0 <= i,
                    i < j,
                    j < n,
                    xd >= 1,
            ;
        } else {
            assert(false) by (nonlinear_arith)
                requires
                    xn * denom(n) >= left_num(w, n, i) * xd,
                    xn * denom(n) <= right_num(w, n, j) * xd,
                    w >= 1,
                    n >= 1,
                    0 <= j,
                    j < i,
                    i < n,
                    xd >= 1,
            ;
        }
    }
}

/// The approximate bucket is faithful: a point inside button `i`'s horizontal
/// span always buckets to `i`, so confirming the candidate by a hit-test
/// loses no hits.
pub proof fn lemma_candidate_complete(w: int, n: int, i: int, x: int)
    requires
        w >= 1,
        n >= 1,
        0 <= i < n,
        x >= 0,
        x_within(w, n, i, x, 1),
    ensures
        candidate_spec(w, n, x) == i,
{
    assert(x * n >= i * w && x * n < (i + 1) * w) by (nonlinear_arith)
        requires
            x * denom(n) >= left_num(w, n, i) * 1,
            x * denom(n) <= right_num(w, n, i) * 1,
            w >= 1,
            n >= 1,
            0 <= i < n,
            x >= 0,
    ;
    assert((i + 1) * w == i * w + w) by (nonlinear_arith);
    lemma_fundamental_div_mod_converse(x * n, w, i, x * n - i * w);
}

} // verus!
