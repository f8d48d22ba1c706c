//! Exact coordinate arithmetic for the renderer.
//!
//! The graphics device consumes vertex positions in normalized device
//! coordinates (NDC), while callers mostly work in pixel space.  The
//! renderer carries every coordinate, texture coordinate and color channel
//! as an exact rational [`Scalar`], so the pixel-to-NDC transform and the
//! texture-coordinate division are exact and their algebra can be verified.
//! The frame boundary evaluates each rational to the device's 32-bit float
//! format when the frame is packed for the device.

use vstd::prelude::*;

verus! {

/// An exact rational number `num / den`.  A well-formed scalar has a
/// positive denominator.
#[derive(Clone, Copy, Debug)]
pub struct Scalar {
    pub num: i64,
    pub den: u64,
}

impl Scalar {
    /// A scalar is well formed when its denominator is positive.
    pub open spec fn wf(self) -> bool {
        self.den >= 1
    }

    /// The two scalars denote the same rational value.
    pub open spec fn eqv(self, other: Scalar) -> bool {
        self.num * other.den == other.num * self.den
    }

    /// The scalar denotes exactly the integer `v`.
    pub open spec fn is_int(self, v: int) -> bool {
        self.num == v * self.den
    }

    /// The integer `v` as a scalar.
    pub fn from_int(v: i64) -> (r: Scalar)
        ensures
            r.wf(),
            r.num == v,
            r.den == 1,
            r.is_int(v as int),
    {
        Scalar { num: v, den: 1 }
    }

    /// The rational `num / den`.
    pub fn new(num: i64, den: u64) -> (r: Scalar)
        requires
            den >= 1,
        ensures
            r.wf(),
            r.num == num,
            r.den == den,
    {
        Scalar { num, den }
    }

    /// Decides whether `self` and `other` denote the same rational value.
    pub fn eq_value(self, other: Scalar) -> (r: bool)
        requires
            self.wf(),
            other.wf(),
        ensures
            r == self.eqv(other),
    {
        proof {
            lemma_cross_product_fits(self.num as int, other.den as int);
            lemma_cross_product_fits(other.num as int, self.den as int);
        }
        (self.num as i128) * (other.den as i128) == (other.num as i128) * (self.den as i128)
    }
}

/// The product of an `i64` with a `u64` fits in an `i128`.
proof fn lemma_cross_product_fits(a: int, b: int)
    requires
        i64::MIN <= a <= i64::MAX,
        0 <= b <= u64::MAX,
    ensures
        i128::MIN <= a * b <= i128::MAX,
{
    assert(i128::MIN <= a * b <= i128::MAX) by (nonlinear_arith)
        requires
            i64::MIN <= a <= i64::MAX,
            0 <= b <= u64::MAX,
    ;
}

/// Numerator of the pixel-to-NDC transform on the X axis: the pixel
/// coordinate `pn / pd` in a viewport `w` pixels wide maps to the NDC value
/// `(2 * pn - w * pd) / (w * pd)`, that is `p / w * 2 - 1`.
pub open spec fn ndc_x_num(pn: int, pd: int, w: int) -> int {
    2 * pn - w * pd
}

/// Numerator of the pixel-to-NDC transform on the Y axis: the pixel
/// coordinate `pn / pd` in a viewport `h` pixels tall maps to the NDC value
/// `(h * pd - 2 * pn) / (h * pd)`, that is `p / h * -2 + 1`.  Pixel space
/// grows downward while NDC grows upward, so the sign is flipped.
pub open spec fn ndc_y_num(pn: int, pd: int, h: int) -> int {
    h * pd - 2 * pn
}

/// Denominator of the pixel-to-NDC transform on either axis.
pub open spec fn ndc_den(pd: int, e: int) -> int {
    e * pd
}

/// Numerator of the NDC-to-pixel transform on the X axis: the NDC value
/// `sn / sd` maps back to the pixel coordinate `(sn + sd) * w / (2 * sd)`,
/// that is `(s + 1) * w / 2`.
pub open spec fn px_x_num(sn: int, sd: int, w: int) -> int {
    (sn + sd) * w
}

/// Numerator of the NDC-to-pixel transform on the Y axis: the NDC value
/// `sn / sd` maps back to the pixel coordinate `(sd - sn) * h / (2 * sd)`.
pub open spec fn px_y_num(sn: int, sd: int, h: int) -> int {
    (sd - sn) * h
}

/// Denominator of the NDC-to-pixel transform on either axis.
pub open spec fn px_den(sd: int) -> int {
    2 * sd
}

/// `r` is the image of the pixel X coordinate `p` under the pixel-to-NDC
/// transform for a viewport `w` pixels wide.
pub open spec fn is_ndc_x(r: Scalar, p: Scalar, w: int) -> bool {
    &&& r.num == ndc_x_num(p.num as int, p.den as int, w)
    &&& r.den == ndc_den(p.den as int, w)
}

/// `r` is the image of the pixel Y coordinate `p` under the pixel-to-NDC
/// transform for a viewport `h` pixels tall.
pub open spec fn is_ndc_y(r: Scalar, p: Scalar, h: int) -> bool {
    &&& r.num == ndc_y_num(p.num as int, p.den as int, h)
    &&& r.den == ndc_den(p.den as int, h)
}

/// `r` is the image of the NDC X coordinate `s` under the NDC-to-pixel
/// transform for a viewport `w` pixels wide.
pub open spec fn is_px_x(r: Scalar, s: Scalar, w: int) -> bool {
    &&& r.num == px_x_num(s.num as int, s.den as int, w)
    &&& r.den == px_den(s.den as int)
}

/// `r` is the image of the NDC Y coordinate `s` under the NDC-to-pixel
/// transform for a viewport `h` pixels tall.
pub open spec fn is_px_y(r: Scalar, s: Scalar, h: int) -> bool {
    &&& r.num == px_y_num(s.num as int, s.den as int, h)
    &&& r.den == px_den(s.den as int)
}

/// `s` is exactly the rational `n / d`, as written.
pub open spec fn is_ratio(s: Scalar, n: int, d: int) -> bool {
    &&& s.num == n
    &&& s.den == d
}

/// Bounds on a caller-supplied pixel coordinate under which the
/// pixel-to-NDC arithmetic stays well inside the 64-bit range.
pub open spec fn input_bounded(s: Scalar) -> bool {
    &&& 1 <= s.den <= 0x10_0000
    &&& -0x100_0000_0000 <= s.num <= 0x100_0000_0000
}

/// Bounds on a caller-supplied NDC coordinate under which the
/// NDC-to-pixel arithmetic stays well inside the 64-bit range.
pub open spec fn ndc_input_bounded(s: Scalar) -> bool {
    &&& 1 <= s.den <= 0x10_0000
    &&& -0x4000_0000 <= s.num <= 0x4000_0000
}

/// Sending a pixel X coordinate through the pixel-to-NDC transform and back
/// returns the same rational value: with `sn = 2 pn - w pd` and
/// `sd = w pd`, the pixel coordinate `(sn + sd) w / (2 sd)` equals
/// `pn / pd`.
pub proof fn lemma_px_ndc_round_trip_x(pn: int, pd: int, w: int)
    requires
        pd >= 1,
        w >= 1,
    ensures
        px_x_num(ndc_x_num(pn, pd, w), ndc_den(pd, w), w) * pd == pn * px_den(ndc_den(pd, w)),
        px_den(ndc_den(pd, w)) >= 1,
{
    assert((2 * pn - w * pd + w * pd) * w * pd == pn * (2 * (w * pd))) by (nonlinear_arith);
    assert(2 * (w * pd) >= 1) by (nonlinear_arith)
        requires
            pd >= 1,
            w >= 1,
    ;
}

/// Sending a pixel Y coordinate through the pixel-to-NDC transform and back
/// returns the same rational value.
pub proof fn lemma_px_ndc_round_trip_y(pn: int, pd: int, h: int)
    requires
        pd >= 1,
        h >= 1,
    ensures
        px_y_num(ndc_y_num(pn, pd, h), ndc_den(pd, h), h) * pd == pn * px_den(ndc_den(pd, h)),
        px_den(ndc_den(pd, h)) >= 1,
{
    assert((h * pd - (h * pd - 2 * pn)) * h * pd == pn * (2 * (h * pd))) by (nonlinear_arith);
    assert(2 * (h * pd) >= 1) by (nonlinear_arith)
        requires
            pd >= 1,
            h >= 1,
    ;
}

/// Sending an NDC X coordinate through the NDC-to-pixel transform and back
/// returns the same rational value.
pub proof fn lemma_ndc_px_round_trip_x(sn: int, sd: int, w: int)
    requires
        sd >= 1,
        w >= 1,
    ensures
        ndc_x_num(px_x_num(sn, sd, w), px_den(sd), w) * sd == sn * ndc_den(px_den(sd), w),
        ndc_den(px_den(sd), w) >= 1,
{
    assert((2 * ((sn + sd) * w) - w * (2 * sd)) * sd == sn * (w * (2 * sd))) by (nonlinear_arith);
    assert(w * (2 * sd) >= 1) by (nonlinear_arith)
        requires
            sd >= 1,
            w >= 1,
    ;
}

/// Sending an NDC Y coordinate through the NDC-to-pixel transform and back
/// returns the same rational value.
pub proof fn lemma_ndc_px_round_trip_y(sn: int, sd: int, h: int)
    requires
        sd >= 1,
        h >= 1,
    ensures
        ndc_y_num(px_y_num(sn, sd, h), px_den(sd), h) * sd == sn * ndc_den(px_den(sd), h),
        ndc_den(px_den(sd), h) >= 1,
{
    assert((h * (2 * sd) - 2 * ((sd - sn) * h)) * sd == sn * (h * (2 * sd))) by (nonlinear_arith);
    assert(h * (2 * sd) >= 1) by (nonlinear_arith)
        requires
            sd >= 1,
            h >= 1,
    ;
}

/// The pixel-to-NDC transform flips the Y axis: a pixel Y coordinate
/// strictly below another maps to an NDC Y coordinate strictly above the
/// other's image.
pub proof fn lemma_ndc_y_flips_order(an: int, ad: int, bn: int, bd: int, h: int)
    requires
        ad >= 1,
        bd >= 1,
        h >= 1,
        an * bd < bn * ad,
    ensures
        ndc_y_num(an, ad, h) * ndc_den(bd, h) > ndc_y_num(bn, bd, h) * ndc_den(ad, h),
{
    assert((h * ad - 2 * an) * (h * bd) > (h * bd - 2 * bn) * (h * ad)) by (nonlinear_arith)
        requires
            ad >= 1,
            bd >= 1,
            h >= 1,
            an * bd < bn * ad,
    ;
}

/// The pixel-to-NDC transform keeps the order of the X axis: a pixel X
/// coordinate strictly below another maps strictly below the other's image.
pub proof fn lemma_ndc_x_keeps_order(an: int, ad: int, bn: int, bd: int, w: int)
    requires
        ad >= 1,
        bd >= 1,
        w >= 1,
        an * bd < bn * ad,
    ensures
        ndc_x_num(an, ad, w) * ndc_den(bd, w) < ndc_x_num(bn, bd, w) * ndc_den(ad, w),
{
    assert((2 * an - w * ad) * (w * bd) < (2 * bn - w * bd) * (w * ad)) by (nonlinear_arith)
        requires
            ad >= 1,
            bd >= 1,
            w >= 1,
            an * bd < bn * ad,
    ;
}

} // verus!
