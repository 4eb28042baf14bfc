//! Hue, saturation and lightness in exact arithmetic.
//!
//! Every quantity is a fraction of two integers, so a conversion gives the
//! same channels on every machine and its result can be stated exactly.

use vstd::prelude::*;
use vstd::arithmetic::div_mod::lemma_fundamental_div_mod_converse;

verus! {

/// An exact non-negative fraction, `num / den`. It is kept as it was
/// computed and never reduced.
#[derive(Clone, Copy, Debug, PartialEq, Eq)]
pub struct Ratio {
    pub num: u32,
    pub den: u32,
}

impl Ratio {
    /// A fraction between zero and one, both included.
    pub open spec fn is_unit(self) -> bool {
        self.den > 0 && self.num <= self.den
    }

    /// A number of degrees that is at least 0 and below 360.
    pub open spec fn is_hue(self) -> bool {
        self.den > 0 && self.num < 360 * self.den
    }

    /// Whether two fractions stand for the same number.
    pub open spec fn same_value(self, other: Ratio) -> bool {
        self.num * other.den == other.num * self.den
    }
}

/// A color as hue (degrees), saturation and lightness.
#[derive(Clone, Copy, Debug, PartialEq, Eq)]
pub struct Hsl {
    pub hue: Ratio,
    pub saturation: Ratio,
    pub lightness: Ratio,
}

impl Hsl {
    /// The hue is in `[0, 360)`, saturation and lightness are in `[0, 1]`.
    pub open spec fn wf(self) -> bool {
        self.hue.is_hue() && self.saturation.is_unit() && self.lightness.is_unit()
    }
}

/// The largest of three channels.
pub open spec fn max3(a: int, b: int, c: int) -> int {
    if a >= b && a >= c {
        a
    } else if b >= c {
        b
    } else {
        c
    }
}

/// The smallest of three channels.
pub open spec fn min3(a: int, b: int, c: int) -> int {
    if a <= b && a <= c {
        a
    } else if b <= c {
        b
    } else {
        c
    }
}

/// The distance between two integers.
pub open spec fn dist(a: int, b: int) -> int {
    if a >= b {
        a - b
    } else {
        b - a
    }
}

/// The hue of a color in degrees, over the denominator `max - min`.
///
/// A gray has hue 0. Otherwise the channel that is largest picks a third
/// of the circle (red is tried first, then green), and the difference of
/// the other two moves the hue by up to 60 degrees to either side of that
/// third's centre: 0 for red, 120 for green, 240 for blue.
pub open spec fn spec_hue(r: u8, g: u8, b: u8) -> Ratio {
    let hi = max3(r as int, g as int, b as int);
    let span = hi - min3(r as int, g as int, b as int);
    if span == 0 {
        Ratio { num: 0, den: 1 }
    } else if hi == r {
        if g >= b {
            Ratio { num: (60 * (g - b)) as u32, den: span as u32 }
        } else {
            Ratio { num: (360 * span - 60 * (b - g)) as u32, den: span as u32 }
        }
    } else if hi == g {
        Ratio { num: (120 * span + 60 * (b - r)) as u32, den: span as u32 }
    } else {
        Ratio { num: (240 * span + 60 * (r - g)) as u32, den: span as u32 }
    }
}

/// The saturation of a color: 0 for a gray, otherwise
/// `(max - min) / (255 - |max + min - 255|)`.
pub open spec fn spec_saturation(r: u8, g: u8, b: u8) -> Ratio {
    let hi = max3(r as int, g as int, b as int);
    let lo = min3(r as int, g as int, b as int);
    if hi == lo {
        Ratio { num: 0, den: 1 }
    } else {
        Ratio { num: (hi - lo) as u32, den: (255 - dist(hi + lo, 255)) as u32 }
    }
}

/// The lightness of a color: `(max + min) / 510`.
pub open spec fn spec_lightness(r: u8, g: u8, b: u8) -> Ratio {
    let hi = max3(r as int, g as int, b as int);
    let lo = min3(r as int, g as int, b as int);
    Ratio { num: (hi + lo) as u32, den: 510 }
}

/// The color `(r, g, b)` in hue, saturation and lightness.
pub open spec fn spec_rgb_to_hsl(r: u8, g: u8, b: u8) -> Hsl {
    Hsl {
        hue: spec_hue(r, g, b),
        saturation: spec_saturation(r, g, b),
        lightness: spec_lightness(r, g, b),
    }
}

/// Converts a color from red, green and blue to hue, saturation and
/// lightness, without rounding.
pub fn rgb_to_hsl(r: u8, g: u8, b: u8) -> (hsl: Hsl)
    ensures
        hsl == spec_rgb_to_hsl(r, g, b),
        hsl.wf(),
        hsl.hue.den <= 255,
{
    let r32: u32 = r as u32;
    let g32: u32 = g as u32;
    let b32: u32 = b as u32;
    let hi: u32 = if r32 >= g32 && r32 >= b32 {
        r32
    } else if g32 >= b32 {
        g32
    } else {
        b32
    };
    let lo: u32 = if r32 <= g32 && r32 <= b32 {
        r32
    } else if g32 <= b32 {
        g32
    } else {
        b32
    };
    let span: u32 = hi - lo;
    let lightness = Ratio { num: hi + lo, den: 510 };
    if span == 0 {
        return Hsl {
            hue: Ratio { num: 0, den: 1 },
            saturation: Ratio { num: 0, den: 1 },
            lightness,
        };
    }
    let num: u32 = if hi == r32 {
        if g32 >= b32 {
            60 * (g32 - b32)
        } else {
            360 * span - 60 * (b32 - g32)
        }
    } else if hi == g32 {
        120 * span + 60 * b32 - 60 * r32
    } else {
        240 * span + 60 * r32 - 60 * g32
    };
    let sum: u32 = hi + lo;
    let off: u32 = if sum >= 255 {
        sum - 255
    } else {
        255 - sum
    };
    Hsl {
        hue: Ratio { num, den: span },
        saturation: Ratio { num: span, den: 255 - off },
        lightness,
    }
}

/// Chroma, `(1 - |2L - 1|) * S`, as a numerator over `L.den * S.den`.
pub open spec fn chroma_num(s: Ratio, l: Ratio) -> int {
    (l.den - dist(2 * l.num, l.den as int)) * s.num
}

/// The offset `m = L - C / 2` that is added to every channel, as a
/// numerator over `2 * L.den * S.den`.
pub open spec fn offset_num(s: Ratio, l: Ratio) -> int {
    2 * l.num * s.den - chroma_num(s, l)
}

/// The share of the chroma that the middle channel gets,
/// `1 - |(H / 60 mod 2) - 1|`, as a numerator over `60 * H.den`.
pub open spec fn ramp_num(h: Ratio) -> int {
    60 * h.den - dist(h.num as int % (120 * h.den), 60 * h.den)
}

/// The integer nearest to `255 * num / den`; a value halfway between two
/// integers goes to the larger.
pub open spec fn scale_255(num: int, den: int) -> int {
    (510 * num + den) / (2 * den)
}

/// One channel of the color: `255 * (share * C + m)` rounded, where
/// `share` is the part of the chroma that the channel gets, written as a
/// numerator over `60 * H.den` (all of it, the ramp, or nothing).
pub open spec fn channel(hsl: Hsl, share: int) -> int {
    scale_255(
        2 * chroma_num(hsl.saturation, hsl.lightness) * share + 60 * hsl.hue.den * offset_num(
            hsl.saturation,
            hsl.lightness,
        ),
        120 * hsl.hue.den * hsl.lightness.den * hsl.saturation.den,
    )
}

/// The sixth of the color circle that a hue lies in, 0 to 5.
pub open spec fn sector(h: Ratio) -> int {
    h.num as int / (60 * h.den)
}

/// The color with the given hue, saturation and lightness, each channel
/// rounded to the nearest integer.
///
/// The channel with all of the chroma, the one with the ramp's share and
/// the one with none change places from one sector to the next.
pub open spec fn spec_hsl_to_rgb(hsl: Hsl) -> (u8, u8, u8) {
    let high = channel(hsl, 60 * hsl.hue.den) as u8;
    let mid = channel(hsl, ramp_num(hsl.hue)) as u8;
    let low = channel(hsl, 0) as u8;
    let k = sector(hsl.hue);
    if k == 0 {
        (high, mid, low)
    } else if k == 1 {
        (mid, high, low)
    } else if k == 2 {
        (low, high, mid)
    } else if k == 3 {
        (low, mid, high)
    } else if k == 4 {
        (mid, low, high)
    } else {
        (high, low, mid)
    }
}

/// The chroma is between zero and one, the offset is not negative, and
/// chroma and offset together never pass the top of the scale.
pub proof fn lemma_chroma_bounds(s: Ratio, l: Ratio)
    requires
        s.is_unit(),
        l.is_unit(),
    ensures
        0 <= chroma_num(s, l) <= l.den * s.den,
        0 <= offset_num(s, l),
        2 * chroma_num(s, l) + offset_num(s, l) <= 2 * l.den * s.den,
{
    let width = l.den - dist(2 * l.num, l.den as int);
    let sn = s.num as int;
    let sd = s.den as int;
    let ln = l.num as int;
    let ld = l.den as int;
    assert(0 <= width <= ld);
    assert(width <= 2 * ln);
    assert(width <= 2 * (ld - ln));
    assert(0 <= width * sn <= ld * sd) by (nonlinear_arith)
        requires
            0 <= width <= ld,
            0 <= sn <= sd,
    ;
    assert(width * sn <= 2 * ln * sd) by (nonlinear_arith)
        requires
            0 <= width <= 2 * ln,
            0 <= sn <= sd,
    ;
    assert(width * sn + 2 * ln * sd <= 2 * ld * sd) by (nonlinear_arith)
        requires
            0 <= width <= 2 * (ld - ln),
            0 <= sn <= sd,
            0 <= ln <= ld,
    ;
}

/// The ramp's share lies between nothing and all of the chroma.
pub proof fn lemma_ramp_bounds(h: Ratio)
    requires
        h.den > 0,
    ensures
        0 <= ramp_num(h) <= 60 * h.den,
{
}

/// A channel is a value from 0 to 255 whenever its share is between
/// nothing and all of the chroma.
pub proof fn lemma_channel_in_range(hsl: Hsl, share: int)
    requires
        hsl.wf(),
        0 <= share <= 60 * hsl.hue.den,
    ensures
        0 <= channel(hsl, share) <= 255,
{
    lemma_channel_fraction(hsl, share);
    lemma_scale_255_in_range(
        2 * chroma_num(hsl.saturation, hsl.lightness) * share + 60 * hsl.hue.den * offset_num(
            hsl.saturation,
            hsl.lightness,
        ),
        120 * hsl.hue.den * hsl.lightness.den * hsl.saturation.den,
    );
}

/// The three channels of a color fit a byte each, and the channel with
/// all of the chroma is at least the one with the ramp's share, which is
/// at least the one with none.
pub proof fn lemma_channels_ordered(hsl: Hsl)
    requires
        hsl.wf(),
    ensures
        0 <= channel(hsl, 0) <= channel(hsl, ramp_num(hsl.hue)) <= channel(hsl, 60 * hsl.hue.den)
            <= 255,
{
    let c = chroma_num(hsl.saturation, hsl.lightness);
    let o = offset_num(hsl.saturation, hsl.lightness);
    let hd = hsl.hue.den as int;
    let ramp = ramp_num(hsl.hue);
    let den = 120 * hd * hsl.lightness.den * hsl.saturation.den;
    lemma_chroma_bounds(hsl.saturation, hsl.lightness);
    lemma_ramp_bounds(hsl.hue);
    lemma_channel_fraction(hsl, 0);
    lemma_channel_in_range(hsl, 0);
    lemma_channel_in_range(hsl, 60 * hd);
    let low = 2 * c * 0 + 60 * hd * o;
    let mid = 2 * c * ramp + 60 * hd * o;
    let high = 2 * c * (60 * hd) + 60 * hd * o;
    assert(low <= mid <= high) by (nonlinear_arith)
        requires
            low == 2 * c * 0 + 60 * hd * o,
            mid == 2 * c * ramp + 60 * hd * o,
            high == 2 * c * (60 * hd) + 60 * hd * o,
            0 <= c,
            0 <= ramp <= 60 * hd,
    ;
    lemma_scale_255_grows(low, mid, den);
    lemma_scale_255_grows(mid, high, den);
}

/// Scaling keeps the order of two fractions over the same denominator.
pub proof fn lemma_scale_255_grows(a: int, b: int, den: int)
    requires
        den > 0,
        a <= b,
    ensures
        scale_255(a, den) <= scale_255(b, den),
{
    let x = 510 * a + den;
    let y = 510 * b + den;
    let d = 2 * den;
    assert(x / d <= y / d) by (nonlinear_arith)
        requires
            d > 0,
            x <= y,
    ;
}

/// What is scaled for a channel is a fraction between zero and one.
pub proof fn lemma_channel_fraction(hsl: Hsl, share: int)
    requires
        hsl.wf(),
        0 <= share <= 60 * hsl.hue.den,
    ensures
        0 <= 2 * chroma_num(hsl.saturation, hsl.lightness) * share + 60 * hsl.hue.den
            * offset_num(hsl.saturation, hsl.lightness) <= 120 * hsl.hue.den
            * hsl.lightness.den * hsl.saturation.den,
        0 < 120 * hsl.hue.den * hsl.lightness.den * hsl.saturation.den,
{
    let c = chroma_num(hsl.saturation, hsl.lightness);
    let o = offset_num(hsl.saturation, hsl.lightness);
    let hd = hsl.hue.den as int;
    let ld = hsl.lightness.den as int;
    let sd = hsl.saturation.den as int;
    lemma_chroma_bounds(hsl.saturation, hsl.lightness);
    assert(0 <= 2 * c * share + 60 * hd * o <= 120 * hd * ld * sd) by (nonlinear_arith)
        requires
            0 <= share <= 60 * hd,
            0 <= c,
            0 <= o,
            2 * c + o <= 2 * ld * sd,
            hd > 0,
    ;
    assert(120 * hd * ld * sd > 0) by (nonlinear_arith)
        requires
            hd > 0,
            ld > 0,
            sd > 0,
    ;
}

/// Scaling a fraction between zero and one gives a value from 0 to 255.
pub proof fn lemma_scale_255_in_range(num: int, den: int)
    requires
        den > 0,
        0 <= num <= den,
    ensures
        0 <= scale_255(num, den) <= 255,
{
    let q = (510 * num + den) / (2 * den);
    assert(0 <= q <= 255) by (nonlinear_arith)
        requires
            den > 0,
            0 <= num <= den,
            q == (510 * num + den) / (2 * den),
    ;
}

/// Scaling rounds to the nearest integer: the result is at most one half
/// away from `255 * num / den`, and exactly one half only from below.
pub proof fn lemma_scale_255_is_nearest(num: int, den: int)
    requires
        den > 0,
        0 <= num,
    ensures
        2 * den * scale_255(num, den) - den <= 510 * num < 2 * den * scale_255(num, den) + den,
{
    let v = (510 * num + den) / (2 * den);
    assert(2 * den * v <= 510 * num + den < 2 * den * v + 2 * den) by (nonlinear_arith)
        requires
            den > 0,
            0 <= num,
            v == (510 * num + den) / (2 * den),
    ;
}

/// Scaling a fraction that stands for `v / 255` gives `v`.
pub proof fn lemma_scale_255_exact(num: int, den: int, v: int)
    requires
        den > 0,
        255 * num == v * den,
    ensures
        scale_255(num, den) == v,
{
    assert(510 * num + den == v * (2 * den) + den) by (nonlinear_arith)
        requires
            255 * num == v * den,
    ;
    lemma_fundamental_div_mod_converse(510 * num + den, 2 * den, v, den);
}

/// In the color made from `(r, g, b)`, a channel whose share of the
/// chroma is `k` parts of `max - min` lies `k` above the smallest of the
/// three.
proof fn lemma_channel_above_min(r: u8, g: u8, b: u8, k: int)
    requires
        max3(r as int, g as int, b as int) > min3(r as int, g as int, b as int),
    ensures
        channel(spec_rgb_to_hsl(r, g, b), 60 * k) == min3(r as int, g as int, b as int) + k,
{
    let hsl = spec_rgb_to_hsl(r, g, b);
    let hi = max3(r as int, g as int, b as int);
    let lo = min3(r as int, g as int, b as int);
    let d = hi - lo;
    let w = 255 - dist(hi + lo, 255);
    let c = chroma_num(hsl.saturation, hsl.lightness);
    let o = offset_num(hsl.saturation, hsl.lightness);
    assert(hsl.hue.den == d);
    assert(hsl.saturation.num == d && hsl.saturation.den == w);
    assert(hsl.lightness.num == hi + lo && hsl.lightness.den == 510);
    assert(510 - dist(2 * (hi + lo), 510) == 2 * w);
    assert(c == 2 * w * d);
    let num = 2 * c * (60 * k) + 60 * d * o;
    let den = 120 * d * 510 * w;
    assert(255 * num == (lo + k) * den) by (nonlinear_arith)
        requires
            num == 2 * c * (60 * k) + 60 * d * o,
            den == 120 * d * 510 * w,
            c == 2 * w * d,
            o == 2 * (hi + lo) * w - c,
            d == hi - lo,
    ;
    assert(den > 0) by (nonlinear_arith)
        requires
            den == 120 * d * 510 * w,
            d > 0,
            w > 0,
    ;
    lemma_scale_255_exact(num, den, lo + k);
}

/// Converting a color to hue, saturation and lightness and back gives the
/// color again.
pub proof fn lemma_rgb_round_trip(r: u8, g: u8, b: u8)
    ensures
        spec_hsl_to_rgb(spec_rgb_to_hsl(r, g, b)) == (r, g, b),
{
    let hsl = spec_rgb_to_hsl(r, g, b);
    let hi = max3(r as int, g as int, b as int);
    let lo = min3(r as int, g as int, b as int);
    let d = hi - lo;
    let hn = hsl.hue.num as int;
    if d == 0 {
        let c = chroma_num(hsl.saturation, hsl.lightness);
        let o = offset_num(hsl.saturation, hsl.lightness);
        let den = 120 * hsl.hue.den * hsl.lightness.den * hsl.saturation.den;
        assert(c == 0 && o == 4 * hi && den == 61200) by (nonlinear_arith)
            requires
                c == (hsl.lightness.den - dist(2 * hsl.lightness.num, hsl.lightness.den as int))
                    * hsl.saturation.num,
                o == 2 * hsl.lightness.num * hsl.saturation.den - c,
                den == 120 * hsl.hue.den * hsl.lightness.den * hsl.saturation.den,
                hsl.saturation.num == 0,
                hsl.saturation.den == 1,
                hsl.lightness.num == 2 * hi,
                hsl.lightness.den == 510,
                hsl.hue.den == 1,
        ;
        assert forall|share: int| channel(hsl, share) == hi by {
            let num = 2 * c * share + 60 * hsl.hue.den * o;
            assert(num == 240 * hi) by (nonlinear_arith)
                requires
                    num == 2 * c * share + 60 * hsl.hue.den * o,
                    c == 0,
                    hsl.hue.den == 1,
                    o == 4 * hi,
            ;
            lemma_scale_255_exact(num, den, hi);
        }
    } else {
        // The hue is `q` whole sectors and `rest` sixtieths of one more,
        // both counted in parts of `max - min`.
        let (q, rest, mid): (int, int, int) = if hi == r {
            if g >= b {
                if g == r {
                    (1, 0, g as int)
                } else {
                    (0, g - b, g as int)
                }
            } else {
                (5, d - (b - g), b as int)
            }
        } else if hi == g {
            if b >= r {
                if b == g {
                    (3, 0, b as int)
                } else {
                    (2, b - r, b as int)
                }
            } else {
                (1, d - (r - b), r as int)
            }
        } else {
            if r >= g {
                (4, r - g, r as int)
            } else {
                (3, d - (g - r), g as int)
            }
        };
        assert(0 <= rest < d);
        assert(hn == q * (60 * d) + 60 * rest) by (nonlinear_arith)
            requires
                hn == 60 * (q * d + rest),
        ;
        lemma_fundamental_div_mod_converse(hn, 60 * d, q, 60 * rest);
        assert(sector(hsl.hue) == q);
        // Within a pair of sectors the hue rises in the first and the
        // ramp with it, and the ramp falls again in the second.
        let pair = q / 2;
        let within = if q % 2 == 0 {
            60 * rest
        } else {
            60 * d + 60 * rest
        };
        assert(hn == pair * (120 * d) + within) by (nonlinear_arith)
            requires
                hn == q * (60 * d) + 60 * rest,
                q == 2 * pair + (if q % 2 == 0 {
                    0int
                } else {
                    1int
                }),
                within == (if q % 2 == 0 {
                    60 * rest
                } else {
                    60 * d + 60 * rest
                }),
        ;
        lemma_fundamental_div_mod_converse(hn, 120 * d, pair, within);
        assert(ramp_num(hsl.hue) == 60 * (mid - lo));
        lemma_channel_above_min(r, g, b, d);
        lemma_channel_above_min(r, g, b, mid - lo);
        lemma_channel_above_min(r, g, b, 0);
        assert(60 * hsl.hue.den == 60 * d);
    }
}

/// The largest denominator that three fractions of a color can have in
/// common: `120 * 2^96`.
pub open spec fn max_common_den() -> int {
    120int * 0x1_0000_0000 * 0x1_0000_0000 * 0x1_0000_0000
}

/// Rounds `255 * num / den` to the nearest integer, halves up.
fn round_255(num: u128, den: u128) -> (v: u8)
    requires
        0 < den <= max_common_den(),
        num <= den,
    ensures
        v == scale_255(num as int, den as int),
{
    proof {
        lemma_scale_255_in_range(num as int, den as int);
    }
    let q: u128 = (510 * num + den) / (2 * den);
    q as u8
}

/// Converts a color from hue, saturation and lightness to red, green and
/// blue, each channel rounded to the nearest integer.
pub fn hsl_to_rgb(hsl: Hsl) -> (rgb: (u8, u8, u8))
    requires
        hsl.wf(),
    ensures
        rgb == spec_hsl_to_rgb(hsl),
{
    let hn: u128 = hsl.hue.num as u128;
    let hd: u128 = hsl.hue.den as u128;
    let sn: u128 = hsl.saturation.num as u128;
    let sd: u128 = hsl.saturation.den as u128;
    let ln: u128 = hsl.lightness.num as u128;
    let ld: u128 = hsl.lightness.den as u128;

    let twice: u128 = 2 * ln;
    let width: u128 = if twice >= ld {
        ld - (twice - ld)
    } else {
        ld - (ld - twice)
    };
    proof {
        lemma_chroma_bounds(hsl.saturation, hsl.lightness);
        assert(ld * sd <= 0x1_0000_0000 * 0x1_0000_0000) by (nonlinear_arith)
            requires
                ld < 0x1_0000_0000,
                sd < 0x1_0000_0000,
        ;
        assert(ln * sd <= ld * sd) by (nonlinear_arith)
            requires
                ln <= ld,
        ;
        assert(width as int == hsl.lightness.den - dist(2 * hsl.lightness.num, hsl.lightness.den as int));
    }
    let chroma: u128 = width * sn;
    assert(chroma == chroma_num(hsl.saturation, hsl.lightness));
    assert(2 * (ln * sd) == 2 * ln * sd) by (nonlinear_arith);
    let offset: u128 = 2 * (ln * sd) - chroma;
    assert(offset == offset_num(hsl.saturation, hsl.lightness));

    let half: u128 = 60 * hd;
    let within: u128 = hn % (120 * hd);
    let ramp: u128 = if within >= half {
        half - (within - half)
    } else {
        within
    };
    assert(ramp == ramp_num(hsl.hue));

    proof {
        // No product below reaches 2^112, and each is the term of the
        // same name in `channel`.
        assert(half * offset <= 60 * 0x1_0000_0000 * (2 * (0x1_0000_0000 * 0x1_0000_0000)))
            by (nonlinear_arith)
            requires
                half <= 60 * 0x1_0000_0000,
                offset <= 2 * (0x1_0000_0000 * 0x1_0000_0000),
        ;
        assert(chroma * half <= 0x1_0000_0000 * 0x1_0000_0000 * (60 * 0x1_0000_0000))
            by (nonlinear_arith)
            requires
                half <= 60 * 0x1_0000_0000,
                chroma <= 0x1_0000_0000 * 0x1_0000_0000,
        ;
        assert(chroma * ramp <= chroma * half) by (nonlinear_arith)
            requires
                ramp <= half,
        ;
        assert(hd * (ld * sd) <= 0x1_0000_0000 * (0x1_0000_0000 * 0x1_0000_0000))
            by (nonlinear_arith)
            requires
                hd <= 0x1_0000_0000,
                ld * sd <= 0x1_0000_0000 * 0x1_0000_0000,
        ;
        assert(120 * (hd * (ld * sd)) == 120 * hd * ld * sd) by (nonlinear_arith);
        assert(120 * (hd * (ld * sd)) > 0) by (nonlinear_arith)
            requires
                hd > 0,
                ld > 0,
                sd > 0,
        ;
        assert(2 * (chroma * half) == 2 * chroma * (60 * hd)) by (nonlinear_arith)
            requires
                half == 60 * hd,
        ;
        assert(2 * (chroma * ramp) == 2 * chroma * ramp) by (nonlinear_arith);
        assert(half * offset == 60 * hd * offset) by (nonlinear_arith)
            requires
                half == 60 * hd,
        ;
        lemma_channel_fraction(hsl, 60 * hd as int);
        lemma_channel_fraction(hsl, ramp as int);
        lemma_channel_fraction(hsl, 0);
    }
    let den: u128 = 120 * (hd * (ld * sd));
    let base: u128 = half * offset;
    let high: u8 = round_255(2 * (chroma * half) + base, den);
    let mid: u8 = round_255(2 * (chroma * ramp) + base, den);
    let low: u8 = round_255(base, den);

    let k: u128 = hn / half;
    if k == 0 {
        (high, mid, low)
    } else if k == 1 {
        (mid, high, low)
    } else if k == 2 {
        (low, high, mid)
    } else if k == 3 {
        (low, mid, high)
    } else if k == 4 {
        (mid, low, high)
    } else {
        (high, low, mid)
    }
}

} // verus!
