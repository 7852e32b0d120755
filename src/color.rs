use vstd::prelude::*;

verus! {

/// An 8-bit RGB colour.
#[derive(Clone, Copy, Debug, PartialEq, Eq, Structural)]
pub struct RgbColor {
    pub r: u8,
    pub g: u8,
    pub b: u8,
}

impl RgbColor {
    /// The channels as a triple, the form in which a canvas holds a pixel.
    pub open spec fn triple(self) -> (u8, u8, u8) {
        (self.r, self.g, self.b)
    }
}

/// A colour given by hue, saturation and luminance, each an exact fraction
/// over the common denominator `scale`: the hue is `hue / scale` degrees,
/// the saturation `sat / scale` percent and the luminance `lum / scale`
/// percent.
#[derive(Clone, Copy, Debug)]
pub struct HSL {
    pub hue: u64,
    pub sat: u64,
    pub lum: u64,
    pub scale: u32,
}

/// The largest intermediate product of the conversion stays below this bound.
pub const PRODUCT_BOUND: u128 = 0x40_0000_0000_0000_0000_0000_0000_0000;

/// The upper blend value `b` of the conversion, scaled by `n * n`, where
/// saturation and luminance are `sat / n` and `lum / n`.
pub open spec fn upper(sat: int, lum: int, n: int) -> int {
    if 2 * lum <= n {
        lum * (sat + n)
    } else {
        lum * n + sat * n - lum * sat
    }
}

/// The lower blend value `a = 2 * luminance - b`, scaled by `n * n`.
pub open spec fn lower(sat: int, lum: int, n: int) -> int {
    2 * lum * n - upper(sat, lum, n)
}

/// A hue offset `t / m` brought back into the unit interval.
pub open spec fn wrap_hue(t: int, m: int) -> int {
    if t < 0 {
        t + m
    } else if t > m {
        t - m
    } else {
        t
    }
}

/// The piecewise channel function at hue `t / m`, between `a` and `b`; the
/// result is scaled by `m` beyond the scale of `a` and `b`.
pub open spec fn channel(a: int, b: int, t: int, m: int) -> int {
    if 6 * t < m {
        a * m + (b - a) * 6 * t
    } else if 2 * t < m {
        b * m
    } else if 3 * t < 2 * m {
        a * m + (b - a) * (4 * m - 6 * t)
    } else {
        a * m
    }
}

/// `255 * p / q` rounded to the nearest integer, halves rounded up.
pub open spec fn round_to_byte(p: int, q: int) -> int {
    (510 * p + q) / (2 * q)
}

/// The RGB colour of an HSL colour whose components are fractions over `scale`.
pub open spec fn hsl_to_rgb(hue: int, sat: int, lum: int, scale: int) -> RgbColor {
    let n = 100 * scale;
    let m = 360 * scale;
    let q = n * n * m;
    let b = upper(sat, lum, n);
    let a = lower(sat, lum, n);
    RgbColor {
        r: round_to_byte(channel(a, b, wrap_hue(hue + 120 * scale, m), m), q) as u8,
        g: round_to_byte(channel(a, b, wrap_hue(hue, m), m), q) as u8,
        b: round_to_byte(channel(a, b, wrap_hue(hue - 120 * scale, m), m), q) as u8,
    }
}

proof fn lemma_blend_bounds(sat: int, lum: int, n: int)
    requires
        0 <= sat <= n,
        0 <= lum <= n,
    ensures
        0 <= lower(sat, lum, n) <= lum * n <= upper(sat, lum, n) <= n * n,
{
    assert(2 * lum * n == 2 * (lum * n)) by (nonlinear_arith);
    assert(0 <= lum * sat) by (nonlinear_arith)
        requires
            0 <= sat,
            0 <= lum,
    ;
    if 2 * lum <= n {
        assert(lum * (sat + n) == lum * sat + lum * n) by (nonlinear_arith);
        assert(lum * sat <= lum * n) by (nonlinear_arith)
            requires
                0 <= lum,
                sat <= n,
        ;
        assert(2 * (lum * n) <= n * n) by (nonlinear_arith)
            requires
                0 <= n,
                2 * lum <= n,
        ;
    } else {
        assert(sat * (n - lum) == sat * n - lum * sat) by (nonlinear_arith);
        assert(0 <= sat * (n - lum) <= n * (n - lum)) by (nonlinear_arith)
            requires
                0 <= sat <= n,
                lum <= n,
        ;
        assert(n * (n - lum) == n * n - lum * n) by (nonlinear_arith);
        assert(n * (n - lum) <= lum * n) by (nonlinear_arith)
            requires
                0 <= n,
                2 * lum > n,
        ;
    }
}

proof fn lemma_channel_bounds(a: int, b: int, t: int, m: int)
    requires
        0 <= a <= b,
        0 <= t <= m,
        0 < m,
    ensures
        0 <= channel(a, b, t, m) <= b * m,
{
    assert(0 <= a * m <= b * m) by (nonlinear_arith)
        requires
            0 <= a <= b,
            0 < m,
    ;
    if 6 * t < m {
        assert(0 <= (b - a) * 6 * t <= (b - a) * m) by (nonlinear_arith)
            requires
                a <= b,
                0 <= t,
                6 * t < m,
        ;
        assert((b - a) * m == b * m - a * m) by (nonlinear_arith);
    } else if 2 * t < m {
    } else if 3 * t < 2 * m {
        assert(0 <= (b - a) * (4 * m - 6 * t) <= (b - a) * m) by (nonlinear_arith)
            requires
                a <= b,
                2 * t >= m,
                3 * t < 2 * m,
        ;
        assert((b - a) * m == b * m - a * m) by (nonlinear_arith);
    }
}

impl HSL {
    /// The component bounds: a positive scale, a hue of at most 360 degrees,
    /// saturation and luminance of at most 100 percent.
    pub open spec fn wf(self) -> bool {
        &&& 0 < self.scale
        &&& self.hue <= 360 * self.scale
        &&& self.sat <= 100 * self.scale
        &&& self.lum <= 100 * self.scale
    }

    /// The colour with hue `hue / scale` degrees, saturation `sat / scale`
    /// percent and luminance `lum / scale` percent.
    pub fn new(hue: u64, sat: u64, lum: u64, scale: u32) -> (r: HSL)
        requires
            0 < scale,
            hue <= 360 * scale,
            sat <= 100 * scale,
            lum <= 100 * scale,
        ensures
            r == (HSL { hue, sat, lum, scale }),
            r.wf(),
    {
        HSL { hue, sat, lum, scale }
    }

    /// The colour in RGB, after the CSS colour module's HSL conversion,
    /// computed exactly and rounded once per channel.
    pub fn rgb(&self) -> (r: RgbColor)
        requires
            self.wf(),
        ensures
            r == hsl_to_rgb(self.hue as int, self.sat as int, self.lum as int, self.scale as int),
    {
        let scale = self.scale as u128;
        let n: u128 = 100 * scale;
        let m: u128 = 360 * scale;
        let sat = self.sat as u128;
        let lum = self.lum as u128;
        proof {
            lemma_blend_bounds(sat as int, lum as int, n as int);
            assert(n * n <= 184467440651196170250000) by (nonlinear_arith)
                requires
                    n <= 429496729500,
            ;
            assert(n * n * m <= 285221384852126779387080710550000000) by (nonlinear_arith)
                requires
                    n * n <= 184467440651196170250000,
                    m <= 1546188226200,
            ;
            assert(lum * sat <= n * n && lum * n <= n * n && sat * n <= n * n) by (nonlinear_arith)
                requires
                    lum <= n,
                    sat <= n,
            ;
        }
        let b = if 2 * lum <= n {
            lum * (sat + n)
        } else {
            lum * n + sat * n - lum * sat
        };
        let a = 2 * lum * n - b;
        let q = n * n * m;
        proof {
            assert(b * m <= n * n * m && 0 < n * n * m) by (nonlinear_arith)
                requires
                    b <= n * n,
                    0 < m,
                    0 < n,
            ;
        }
        let hue = self.hue as i128;
        let third = 120 * (self.scale as i128);
        let r = HSL::hue_to_rgb(a, b, hue + third, m);
        let g = HSL::hue_to_rgb(a, b, hue, m);
        let bl = HSL::hue_to_rgb(a, b, hue - third, m);
        RgbColor { r: HSL::to_byte(r, q), g: HSL::to_byte(g, q), b: HSL::to_byte(bl, q) }
    }

    /// The channel value at hue offset `hue / m`, wrapped into the unit
    /// interval first.
    fn hue_to_rgb(a: u128, b: u128, hue: i128, m: u128) -> (r: u128)
        requires
            a <= b,
            0 < m <= 360 * 0xFFFF_FFFFu128,
            b * m <= PRODUCT_BOUND,
            -(m as int) <= hue <= 2 * m,
        ensures
            r == channel(a as int, b as int, wrap_hue(hue as int, m as int), m as int),
            r <= b * m,
    {
        let mi = m as i128;
        let h = if hue < 0 {
            hue + mi
        } else if hue > mi {
            hue - mi
        } else {
            hue
        };
        let h = h as u128;
        proof {
            assert(b <= b * m) by (nonlinear_arith)
                requires
                    0 < m,
                    0 <= b,
            ;
            lemma_channel_bounds(a as int, b as int, h as int, m as int);
            assert(a * m <= b * m) by (nonlinear_arith)
                requires
                    a <= b,
            ;
        }
        if 6 * h < m {
            proof {
                assert((b - a) * 6 * h <= (b - a) * m) by (nonlinear_arith)
                    requires
                        a <= b,
                        6 * h < m,
                ;
                assert((b - a) * m <= b * m) by (nonlinear_arith)
                    requires
                        a <= b,
                ;
            }
            return a * m + (b - a) * 6 * h;
        }
        if 2 * h < m {
            return b * m;
        }
        if 3 * h < 2 * m {
            proof {
                assert((b - a) * (4 * m - 6 * h) <= (b - a) * m) by (nonlinear_arith)
                    requires
                        a <= b,
                        2 * h >= m,
                ;
                assert((b - a) * m <= b * m) by (nonlinear_arith)
                    requires
                        a <= b,
                ;
            }
            return a * m + (b - a) * (4 * m - 6 * h);
        }
        a * m
    }

    /// `255 * p / q` rounded to the nearest byte.
    fn to_byte(p: u128, q: u128) -> (r: u8)
        requires
            0 < q <= PRODUCT_BOUND,
            p <= q,
        ensures
            r == round_to_byte(p as int, q as int),
    {
        proof {
            assert((510 * p + q) / (2 * q) <= 255) by (nonlinear_arith)
                requires
                    0 < q,
                    p <= q,
            ;
        }
        ((510 * p + q) / (2 * q)) as u8
    }
}

} // verus!
