use vstd::prelude::*;
use crate::types::Rgb;
use vstd::arithmetic::div_mod::lemma_div_is_ordered;

verus! {

/// Fixed-point scale of the color computations: 1.0 is `SCALE`.
pub const SCALE: u64 = 65536;

/// Exclusive upper bound of every integer root taken here.
pub const ROOT_BOUND: u64 = 131072;

/// `r` is the integer cube root of `n`, rounded down.
pub open spec fn is_cube_root(n: int, r: int) -> bool {
    0 <= r && r * r * r <= n < (r + 1) * (r + 1) * (r + 1)
}

/// `r` is the integer fifth root of `n`, rounded down.
pub open spec fn is_fifth_root(n: int, r: int) -> bool {
    0 <= r && r * r * r * r * r <= n < (r + 1) * (r + 1) * (r + 1) * (r + 1) * (r + 1)
}

/// The integer cube root of `n`, rounded down.
pub open spec fn cube_root(n: int) -> int {
    choose|r: int| is_cube_root(n, r)
}

/// The integer fifth root of `n`, rounded down.
pub open spec fn fifth_root(n: int) -> int {
    choose|r: int| is_fifth_root(n, r)
}

proof fn lemma_cube_mono(a: int, b: int)
    requires
        0 <= a <= b,
    ensures
        a * a <= b * b,
        a * a * a <= b * b * b,
{
    assert(a * a <= b * b) by (nonlinear_arith)
        requires
            0 <= a <= b,
    ;
    assert(a * a * a <= b * b * b) by (nonlinear_arith)
        requires
            0 <= a <= b,
            a * a <= b * b,
    ;
}

proof fn lemma_fifth_mono(a: int, b: int)
    requires
        0 <= a <= b,
    ensures
        a * a <= b * b,
        a * a * a <= b * b * b,
        a * a * a * a <= b * b * b * b,
        a * a * a * a * a <= b * b * b * b * b,
{
    lemma_cube_mono(a, b);
    assert(a * a * a * a <= b * b * b * b) by (nonlinear_arith)
        requires
            0 <= a <= b,
            a * a * a <= b * b * b,
    ;
    assert(a * a * a * a * a <= b * b * b * b * b) by (nonlinear_arith)
        requires
            0 <= a <= b,
            a * a * a * a <= b * b * b * b,
    ;
}

proof fn lemma_cube_root_unique(n: int, a: int, b: int)
    requires
        is_cube_root(n, a),
        is_cube_root(n, b),
    ensures
        a == b,
{
    if a < b {
        lemma_cube_mono(a + 1, b);
    } else if b < a {
        lemma_cube_mono(b + 1, a);
    }
}

proof fn lemma_fifth_root_unique(n: int, a: int, b: int)
    requires
        is_fifth_root(n, a),
        is_fifth_root(n, b),
    ensures
        a == b,
{
    if a < b {
        lemma_fifth_mono(a + 1, b);
    } else if b < a {
        lemma_fifth_mono(b + 1, a);
    }
}

/// Integer cube root by bisection.
pub fn cbrt_floor(n: u64) -> (r: u64)
    requires
        n < 131072 * 131072 * 131072,
    ensures
        r == cube_root(n as int),
        r < ROOT_BOUND,
{
    let mut lo: u64 = 0;
    let mut hi: u64 = ROOT_BOUND;
    while hi - lo > 1
        invariant
            lo < hi <= ROOT_BOUND,
            lo * lo * lo <= n,
            n < hi * hi * hi,
        decreases hi - lo,
    {
        let mid = lo + (hi - lo) / 2;
        proof {
            lemma_cube_mono(mid as int, 131072);
        }
        if mid * mid * mid <= n {
            lo = mid;
        } else {
            hi = mid;
        }
    }
    proof {
        assert(is_cube_root(n as int, lo as int));
        lemma_cube_root_unique(n as int, lo as int, cube_root(n as int));
    }
    lo
}

/// Integer fifth root by bisection.
pub fn fifth_root_floor(n: u128) -> (r: u64)
    requires
        n < 131072 * 131072 * 131072 * 131072 * 131072,
    ensures
        r == fifth_root(n as int),
        r < ROOT_BOUND,
{
    let mut lo: u128 = 0;
    let mut hi: u128 = 131072;
    while hi - lo > 1
        invariant
            lo < hi <= 131072,
            lo * lo * lo * lo * lo <= n,
            n < hi * hi * hi * hi * hi,
        decreases hi - lo,
    {
        let mid = lo + (hi - lo) / 2;
        proof {
            lemma_fifth_mono(mid as int, 131072);
        }
        if mid * mid * mid * mid * mid <= n {
            lo = mid;
        } else {
            hi = mid;
        }
    }
    proof {
        assert(is_fifth_root(n as int, lo as int));
        lemma_fifth_root_unique(n as int, lo as int, fifth_root(n as int));
    }
    lo as u64
}

/// sRGB gamma expansion of an 8-bit channel, as a linear intensity in
/// units of `1 / SCALE`: `c/255/12.92` up to 0.04045, else
/// `((c/255 + 0.055) / 1.055)^2.4`.
pub open spec fn linear_of(c: int) -> int {
    if c * 100000 <= 1031475 {
        c * SCALE * 100 / (255 * 1292) as int
    } else {
        let t = (1000 * c + 14025) * SCALE / 269025;
        t * t * fifth_root(t * t * SCALE * SCALE * SCALE) / (SCALE * SCALE)
    }
}

/// The CIE L*a*b* companding curve on a fixed-point value, with delta 6/29.
pub open spec fn lab_f_of(t: int) -> int {
    if t * 24389 > 216 * SCALE {
        cube_root(t * SCALE * SCALE)
    } else {
        (t * 841 * 29 + 4 * 108 * SCALE) / (108 * 29) as int
    }
}

/// D65-normalised X of a linear RGB triple.
pub open spec fn x_of(r: int, g: int, b: int) -> int {
    (r * 4124564 + g * 3575761 + b * 1804375) / 9504700
}

/// D65-normalised Y of a linear RGB triple.
pub open spec fn y_of(r: int, g: int, b: int) -> int {
    (r * 2126729 + g * 7151522 + b * 721750) / 10000000
}

/// D65-normalised Z of a linear RGB triple.
pub open spec fn z_of(r: int, g: int, b: int) -> int {
    (r * 193339 + g * 1191920 + b * 9503041) / 10888300
}

/// A color in CIE L*a*b*, in units of `1 / SCALE`.
#[derive(Debug, Clone, Copy, PartialEq, Eq, Structural)]
pub struct Lab {
    pub l: i64,
    pub a: i64,
    pub b: i64,
}

/// The L*a*b* coordinates of an sRGB color, as (L*, a*, b*).
pub open spec fn lab_spec(c: Rgb) -> (int, int, int) {
    let r = linear_of(c.r as int);
    let g = linear_of(c.g as int);
    let b = linear_of(c.b as int);
    let fx = lab_f_of(x_of(r, g, b));
    let fy = lab_f_of(y_of(r, g, b));
    let fz = lab_f_of(z_of(r, g, b));
    (116 * fy - 16 * SCALE, 500 * (fx - fy), 200 * (fy - fz))
}

/// Squared Euclidean distance of two colors in L*a*b*.
pub open spec fn lab_distance(c1: Rgb, c2: Rgb) -> int {
    let (l1, a1, b1) = lab_spec(c1);
    let (l2, a2, b2) = lab_spec(c2);
    (l1 - l2) * (l1 - l2) + (a1 - a2) * (a1 - a2) + (b1 - b2) * (b1 - b2)
}

impl Lab {
    /// Coordinates lie in the range that `rgb_to_lab` produces.
    pub open spec fn bounded(&self) -> bool {
        -16777216 < self.l < 16777216 && -67108864 < self.a < 67108864 && -67108864 < self.b
            < 67108864
    }
}

/// Expands an 8-bit sRGB channel to linear intensity.
pub fn gamma_expand(c: u8) -> (v: u64)
    ensures
        v == linear_of(c as int),
        v < ROOT_BOUND,
{
    let c = c as u64;
    if c * 100000 <= 1031475 {
        proof {
            lemma_div_is_ordered((c * SCALE * 100) as int, 65536000, 329460);
        }
        c * SCALE * 100 / (255 * 1292)
    } else {
        let t = (1000 * c + 14025) * SCALE / 269025;
        proof {
            lemma_div_is_ordered(((1000 * c + 14025) * SCALE) as int, (269025 * 65536) as int, 269025);
        }
        assert(t * t <= 65536 * 65536) by (nonlinear_arith)
            requires
                t <= 65536,
        ;
        let t2 = (t * t) as u128;
        assert(t2 <= 4294967296);
        let n = t2 * 65536 * 65536 * 65536;
        let p = fifth_root_floor(n);
        assert(t * t * p < 65536 * 65536 * 131072) by (nonlinear_arith)
            requires
                t <= 65536,
                p < 131072,
        ;
        proof {
            lemma_div_is_ordered((t * t * p) as int, (65536 * 65536 * 131072 - 1) as int, (65536 * 65536) as int);
        }
        t * t * p / (SCALE * SCALE)
    }
}

/// The L*a*b* companding curve.
pub fn lab_f(t: u64) -> (v: u64)
    requires
        t < 524288,
    ensures
        v == lab_f_of(t as int),
        v < ROOT_BOUND,
{
    if t * 24389 > 216 * SCALE {
        cbrt_floor(t * SCALE * SCALE)
    } else {
        proof {
            lemma_div_is_ordered(
                (t * 841 * 29 + 4 * 108 * SCALE) as int,
                (580 * 841 * 29 + 4 * 108 * 65536) as int,
                (108 * 29) as int,
            );
        }
        (t * 841 * 29 + 4 * 108 * SCALE) / (108 * 29)
    }
}

/// Converts an sRGB color to L*a*b* through linear RGB and the D65 matrix.
pub fn rgb_to_lab(c: Rgb) -> (lab: Lab)
    ensures
        (lab.l as int, lab.a as int, lab.b as int) == lab_spec(c),
        lab.bounded(),
{
    let r = gamma_expand(c.r);
    let g = gamma_expand(c.g);
    let b = gamma_expand(c.b);
    let x = (r * 4124564 + g * 3575761 + b * 1804375) / 9504700;
    let y = (r * 2126729 + g * 7151522 + b * 721750) / 10000000;
    let z = (r * 193339 + g * 1191920 + b * 9503041) / 10888300;
    let fx = lab_f(x) as i64;
    let fy = lab_f(y) as i64;
    let fz = lab_f(z) as i64;
    Lab { l: 116 * fy - 16 * (SCALE as i64), a: 500 * (fx - fy), b: 200 * (fy - fz) }
}

/// Squared Euclidean distance of two L*a*b* colors.
pub fn color_distance_lab(p: Lab, q: Lab) -> (d: i64)
    requires
        p.bounded(),
        q.bounded(),
    ensures
        d == (p.l - q.l) * (p.l - q.l) + (p.a - q.a) * (p.a - q.a) + (p.b - q.b) * (p.b - q.b),
{
    let dl = p.l - q.l;
    let da = p.a - q.a;
    let db = p.b - q.b;
    assert(0 <= dl * dl < 33554432 * 33554432) by (nonlinear_arith)
        requires
            -33554432 < dl < 33554432,
    ;
    assert(0 <= da * da < 134217728 * 134217728) by (nonlinear_arith)
        requires
            -134217728 < da < 134217728,
    ;
    assert(0 <= db * db < 134217728 * 134217728) by (nonlinear_arith)
        requires
            -134217728 < db < 134217728,
    ;
    dl * dl + da * da + db * db
}

} // verus!
