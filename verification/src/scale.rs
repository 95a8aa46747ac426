//! Exact scaling: font design units are brought to pixels by the rational
//! factor `target_size / origin_height`. Positions are kept as integer
//! numerators over one common denominator, so that no rounding happens
//! before a bounding box is frozen.

use vstd::prelude::*;
use vstd::arithmetic::div_mod::lemma_fundamental_div_mod_converse;

verus! {

/// Letter spacing is given in thousandths of an em.
pub const SPACING_PER_EM: u32 = 1000;

/// The greatest integer `q` with `q * d <= n`, for a positive `d`.
pub open spec fn floor_div_spec(n: int, d: int) -> int {
    n / d
}

/// The least integer `q` with `n <= q * d`, for a positive `d`.
pub open spec fn ceil_div_spec(n: int, d: int) -> int {
    -((-n) / d)
}

/// `floor_div_spec` rounds down and `ceil_div_spec` rounds up, each by less
/// than one.
pub proof fn lemma_rounding(n: int, d: int)
    requires
        d > 0,
    ensures
        floor_div_spec(n, d) * d <= n < (floor_div_spec(n, d) + 1) * d,
        (ceil_div_spec(n, d) - 1) * d < n <= ceil_div_spec(n, d) * d,
        floor_div_spec(n, d) <= ceil_div_spec(n, d) <= floor_div_spec(n, d) + 1,
{
    vstd::arithmetic::div_mod::lemma_fundamental_div_mod(n, d);
    vstd::arithmetic::div_mod::lemma_fundamental_div_mod(-n, d);
    vstd::arithmetic::div_mod::lemma_mod_bound(n, d);
    vstd::arithmetic::div_mod::lemma_mod_bound(-n, d);
    let q = n / d;
    let p = (-n) / d;
    assert(d * q + n % d == n);
    assert(d * p + (-n) % d == -n);
    assert(q * d == d * q) by (nonlinear_arith);
    assert((q + 1) * d == d * q + d) by (nonlinear_arith);
    assert((-p) * d == -(d * p)) by (nonlinear_arith);
    assert((-p - 1) * d == -(d * p) - d) by (nonlinear_arith);
    assert(-p - 1 < q + 1) by (nonlinear_arith)
        requires
            (-p - 1) * d < n,
            n < (q + 1) * d,
            d > 0,
    ;
    assert(q <= -p) by (nonlinear_arith)
        requires
            q * d <= n,
            n <= (-p) * d,
            d > 0,
    ;
}

/// `n / d` rounded down.
pub fn floor_div(n: i128, d: i128) -> (q: i128)
    requires
        d > 0,
    ensures
        q == floor_div_spec(n as int, d as int),
        n >= 0 ==> 0 <= q <= n,
        n < 0 ==> n <= q < 0,
{
    if n >= 0 {
        proof {
            vstd::arithmetic::div_mod::lemma_div_pos_is_pos(n as int, d as int);
            vstd::arithmetic::div_mod::lemma_div_nonincreasing(n as int, d as int);
        }
        n / d
    } else {
        let m: i128 = -(n + 1);
        let p: i128 = m / d;
        proof {
            let r = (m as int) % (d as int);
            vstd::arithmetic::div_mod::lemma_fundamental_div_mod(m as int, d as int);
            vstd::arithmetic::div_mod::lemma_mod_bound(m as int, d as int);
            vstd::arithmetic::div_mod::lemma_div_pos_is_pos(m as int, d as int);
            vstd::arithmetic::div_mod::lemma_div_nonincreasing(m as int, d as int);
            assert((-(p as int) - 1) * d + (d - r - 1) == n) by (nonlinear_arith)
                requires
                    m == d * p + r,
                    n == -m - 1,
            ;
            lemma_fundamental_div_mod_converse(n as int, d as int, -(p as int) - 1, d - r - 1);
        }
        -p - 1
    }
}

/// `n / d` rounded up.
pub fn ceil_div(n: i128, d: i128) -> (q: i128)
    requires
        d > 0,
        n > i128::MIN,
    ensures
        q == ceil_div_spec(n as int, d as int),
{
    let f = floor_div(-n, d);
    -f
}


/// What a face says of its own geometry, in design units.
#[derive(Clone, Copy, Debug, PartialEq, Eq, Structural)]
pub struct FaceMetrics {
    /// Design units per em.
    pub units_per_em: u16,
    /// Height above the baseline.
    pub ascent: i32,
    /// Depth below the baseline, negative for most faces.
    pub descent: i32,
}

/// The height that a face's metrics span: `ascent - descent`, and at least
/// one even for degenerate metrics.
pub open spec fn origin_height_of(metrics: FaceMetrics) -> int {
    if metrics.ascent - metrics.descent >= 1 {
        metrics.ascent - metrics.descent
    } else {
        1
    }
}

/// The scale of one face at one pixel size. A length of `u` design units is
/// `u * target_size / origin_height` pixels.
#[derive(Clone, Copy, Debug)]
pub struct ScaleContext {
    target_size: u32,
    origin_height: u32,
    metrics: FaceMetrics,
}

impl ScaleContext {
    #[verifier::type_invariant]
    spec fn inv(self) -> bool {
        self.origin_height as int == origin_height_of(self.metrics)
    }

    /// The requested size in pixels: the numerator of the scale factor.
    pub closed spec fn size(&self) -> int {
        self.target_size as int
    }

    /// The metrics that the scale was derived from.
    pub closed spec fn face(&self) -> FaceMetrics {
        self.metrics
    }

    /// The denominator of the scale factor.
    pub open spec fn height(&self) -> int {
        origin_height_of(self.face())
    }

    /// The common denominator of scaled positions: a position `p` stands for
    /// `p / denominator()` pixels.
    pub open spec fn denominator(&self) -> int {
        SPACING_PER_EM as int * self.height()
    }

    /// The position that stands for `units` design units.
    pub open spec fn scaled(&self, units: int) -> int {
        units * SPACING_PER_EM as int * self.size()
    }

    /// The position that stands for `pixels` whole pixels.
    pub open spec fn pixels(&self, pixels: int) -> int {
        pixels * self.denominator()
    }

    /// The position that stands for a letter spacing of `spacing`
    /// thousandths of an em.
    pub open spec fn spacing(&self, spacing: int) -> int {
        spacing * self.face().units_per_em as int * self.size()
    }

    /// The size is that of a `u32`.
    pub proof fn lemma_size_bounds(self)
        ensures
            0 <= self.size() <= u32::MAX,
    {
    }

    /// The scale of a face with the given metrics at `target_size` pixels, as
    /// a value.
    pub closed spec fn of(metrics: FaceMetrics, target_size: u32) -> ScaleContext {
        ScaleContext { target_size, origin_height: origin_height_of(metrics) as u32, metrics }
    }

    /// What a scale is made of is what it was made from.
    pub proof fn lemma_of(metrics: FaceMetrics, target_size: u32)
        ensures
            ScaleContext::of(metrics, target_size).face() == metrics,
            ScaleContext::of(metrics, target_size).size() == target_size,
            ScaleContext::of(metrics, target_size).height() == origin_height_of(metrics),
    {
    }

    /// The scale of a face with the given metrics at `target_size` pixels.
    pub fn derive(metrics: FaceMetrics, target_size: u32) -> (ctx: ScaleContext)
        ensures
            ctx == ScaleContext::of(metrics, target_size),
            ctx.face() == metrics,
            ctx.size() == target_size,
    {
        let span: i64 = metrics.ascent as i64 - metrics.descent as i64;
        let origin_height: u32 = if span >= 1 {
            span as u32
        } else {
            1
        };
        ScaleContext { target_size, origin_height, metrics }
    }

    /// The requested size in pixels.
    pub fn target_size(&self) -> (r: u32)
        ensures
            r == self.size(),
    {
        self.target_size
    }

    /// `max(ascent - descent, 1)` in design units.
    pub fn origin_height(&self) -> (r: u32)
        ensures
            r == self.height(),
            r >= 1,
    {
        proof {
            use_type_invariant(self);
        }
        self.origin_height
    }

    /// Design units per em.
    pub fn units_per_em(&self) -> (r: u16)
        ensures
            r == self.face().units_per_em,
    {
        self.metrics.units_per_em
    }

    /// The face's ascent in design units.
    pub fn ascent(&self) -> (r: i32)
        ensures
            r == self.face().ascent,
    {
        self.metrics.ascent
    }

    /// The face's descent in design units.
    pub fn descent(&self) -> (r: i32)
        ensures
            r == self.face().descent,
    {
        self.metrics.descent
    }

    /// The scaled position of `units` design units.
    pub fn scale_units(&self, units: i32) -> (r: i128)
        ensures
            r == self.scaled(units as int),
            -0x200_0000_0000_0000_0000 <= r <= 0x200_0000_0000_0000_0000,
    {
        let k: i128 = SPACING_PER_EM as i128 * self.target_size as i128;
        assert(-0x8000_0000 * k <= units * k <= 0x8000_0000 * k) by (nonlinear_arith)
            requires
                -0x8000_0000 <= units <= 0x8000_0000,
                0 <= k,
        ;
        assert(units * SPACING_PER_EM as int * self.size() == units * k) by (nonlinear_arith)
            requires
                k == SPACING_PER_EM as int * self.size(),
        ;
        units as i128 * k
    }

    /// The scaled position of `pixels` whole pixels.
    pub fn scale_pixels(&self, pixels: i64) -> (r: i128)
        ensures
            r == self.pixels(pixels as int),
            -0x2_0000_0000_0000_0000_0000_0000_0000 <= r <= 0x2_0000_0000_0000_0000_0000_0000_0000,
    {
        let d: i128 = self.denominator_value();
        assert(-0x8000_0000_0000_0000 * d <= pixels * d <= 0x8000_0000_0000_0000 * d)
            by (nonlinear_arith)
            requires
                -0x8000_0000_0000_0000 <= pixels <= 0x8000_0000_0000_0000,
                0 <= d,
        ;
        pixels as i128 * d
    }

    /// The scaled length of a letter spacing given in thousandths of an em.
    pub fn scale_spacing(&self, spacing: i32) -> (r: i128)
        ensures
            r == self.spacing(spacing as int),
            -0x8000_0000_0000_0000_0000 <= r <= 0x8000_0000_0000_0000_0000,
    {
        let em: i128 = self.metrics.units_per_em as i128;
        let size: i128 = self.target_size as i128;
        assert(0 <= em * size <= 0x1_0000 * 0x1_0000_0000) by (nonlinear_arith)
            requires
                0 <= em < 0x1_0000,
                0 <= size < 0x1_0000_0000,
        ;
        let k: i128 = em * size;
        assert(-0x8000_0000 * k <= spacing * k <= 0x8000_0000 * k) by (nonlinear_arith)
            requires
                -0x8000_0000 <= spacing <= 0x8000_0000,
                0 <= k,
        ;
        assert(spacing * self.face().units_per_em as int * self.size() == spacing * k)
            by (nonlinear_arith)
            requires
                k == self.face().units_per_em as int * self.size(),
        ;
        spacing as i128 * k
    }

    /// The common denominator of scaled positions.
    pub fn denominator_value(&self) -> (r: i128)
        ensures
            r == self.denominator(),
            1000 <= r <= 1000 * 0xFFFF_FFFF,
    {
        proof {
            use_type_invariant(self);
        }
        SPACING_PER_EM as i128 * self.origin_height as i128
    }
}

} // verus!
