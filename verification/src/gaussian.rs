//! Gaussian beam intensity distribution.
//!
//! The beam propagates in vacuum; an optional coaxial circular mask
//! fully zeroes the intensity inside its radius. The intensity follows
//! `I(r, z) = I0 / (1 + (z / zR)^2) * exp(-2 r^2 / w(z)^2)` with `zR`
//! the Rayleigh range and `w(z)` the broadened spot size; the gradient
//! is derived analytically in the beam's local frame, never by finite
//! differencing. The exponential is this crate's own fixed-point
//! approximation, defined exactly by `spec_exp_neg`: a power-of-`1/e`
//! range reduction followed by a fourth-order alternating series.

use vstd::prelude::*;
use crate::fixed::MAXQ;
use crate::fixed::PI_FP;
use crate::fixed::TWO_PI_FP;
use crate::fixed::UNIT;
use crate::fixed::clamp64;
use crate::fixed::clamp_to_i64;
use crate::fixed::floor_div128;
use crate::fixed::lemma_div_range;
use crate::vec3::Vec3;

verus! {

/// The reciprocal of Euler's number at fixed-point scale, floored.
pub const INV_E_FP: i64 = 367_879;

/// `(1/e)^k` at fixed-point scale, with a floor at each multiplication.
pub open spec fn spec_inv_e_pow(k: nat) -> int
    decreases k,
{
    if k == 0 {
        UNIT as int
    } else {
        (spec_inv_e_pow((k - 1) as nat) * INV_E_FP) / (UNIT as int)
    }
}

/// The powers of `1/e` stay inside `[0, UNIT]`.
pub proof fn lemma_inv_e_pow_range(k: nat)
    ensures
        0 <= spec_inv_e_pow(k) <= UNIT,
    decreases k,
{
    if k > 0 {
        lemma_inv_e_pow_range((k - 1) as nat);
        let p = spec_inv_e_pow((k - 1) as nat);
        assert(0 <= p * INV_E_FP <= (UNIT as int) * INV_E_FP) by (nonlinear_arith)
            requires 0 <= p <= UNIT;
        vstd::arithmetic::div_mod::lemma_div_pos_is_pos(p * INV_E_FP, UNIT as int);
        vstd::arithmetic::div_mod::lemma_div_is_ordered(
            p * INV_E_FP,
            (UNIT as int) * INV_E_FP,
            UNIT as int,
        );
        assert(((UNIT as int) * INV_E_FP) / (UNIT as int) == INV_E_FP) by {
            vstd::arithmetic::div_mod::lemma_div_multiples_vanish(INV_E_FP as int, UNIT as int);
        };
    }
}

/// The fourth-order series for `exp(-f)` on a fractional argument
/// `f` in `[0, UNIT)`: `1 - f + f^2/2 - f^3/6 + f^4/24`, every power
/// floored onto the lattice.
pub open spec fn spec_exp_series(f: int) -> int {
    let f2 = (f * f) / (UNIT as int);
    let f3 = (f2 * f) / (UNIT as int);
    let f4 = (f3 * f) / (UNIT as int);
    (UNIT as int) - f + f2 / 2 - f3 / 6 + f4 / 24
}

/// `exp(-t)` at fixed-point scale: the integer part of `t` is handled
/// by powers of `1/e` (capped, far in the exponential tail, at zero)
/// and the fractional part by the series.
pub open spec fn spec_exp_neg(t: int) -> int {
    if t < 0 {
        UNIT as int
    } else {
        let k = t / (UNIT as int);
        let f = t % (UNIT as int);
        if k >= 14 {
            0
        } else {
            (spec_inv_e_pow(k as nat) * spec_exp_series(f)) / (UNIT as int)
        }
    }
}

/// The series stays inside `[1, UNIT]` on `[0, UNIT)`.
proof fn lemma_exp_series_range(f: int)
    requires
        0 <= f < UNIT,
    ensures
        1 <= spec_exp_series(f) <= UNIT,
{
    let u = UNIT as int;
    let f2 = (f * f) / u;
    let f3 = (f2 * f) / u;
    let f4 = (f3 * f) / u;
    assert(0 <= f * f <= f * u) by (nonlinear_arith)
        requires 0 <= f < u;
    vstd::arithmetic::div_mod::lemma_div_pos_is_pos(f * f, u);
    vstd::arithmetic::div_mod::lemma_div_is_ordered(f * f, f * u, u);
    assert((f * u) / u == f) by {
        vstd::arithmetic::div_mod::lemma_div_multiples_vanish(f, u);
    };
    assert(0 <= f2 <= f);
    assert(0 <= f2 * f <= f2 * u) by (nonlinear_arith)
        requires 0 <= f2 && 0 <= f < u;
    vstd::arithmetic::div_mod::lemma_div_pos_is_pos(f2 * f, u);
    vstd::arithmetic::div_mod::lemma_div_is_ordered(f2 * f, f2 * u, u);
    assert((f2 * u) / u == f2) by {
        vstd::arithmetic::div_mod::lemma_div_multiples_vanish(f2, u);
    };
    assert(0 <= f3 <= f2);
    assert(0 <= f3 * f <= f3 * u) by (nonlinear_arith)
        requires 0 <= f3 && 0 <= f < u;
    vstd::arithmetic::div_mod::lemma_div_pos_is_pos(f3 * f, u);
    vstd::arithmetic::div_mod::lemma_div_is_ordered(f3 * f, f3 * u, u);
    assert((f3 * u) / u == f3) by {
        vstd::arithmetic::div_mod::lemma_div_multiples_vanish(f3, u);
    };
    assert(0 <= f4 <= f3);
    // Lower bound: (u - f) >= 1, f2/2 >= f3/6 and f4/24 >= 0.
    vstd::arithmetic::div_mod::lemma_div_is_ordered(f3, f2, 6);
    vstd::arithmetic::div_mod::lemma_div_is_ordered_by_denominator(f2, 2, 6);
    vstd::arithmetic::div_mod::lemma_div_pos_is_pos(f4, 24);
    vstd::arithmetic::div_mod::lemma_div_pos_is_pos(f2, 2);
    // Upper bound: f2/2 + f4/24 <= f/2 + f/2 <= f.
    vstd::arithmetic::div_mod::lemma_div_is_ordered(f2, f, 2);
    vstd::arithmetic::div_mod::lemma_div_is_ordered(f4, f, 24);
    vstd::arithmetic::div_mod::lemma_div_is_ordered_by_denominator(f, 2, 24);
    assert(2 * (f / 2) <= f) by {
        vstd::arithmetic::div_mod::lemma_fundamental_div_mod(f, 2);
    };
    vstd::arithmetic::div_mod::lemma_div_pos_is_pos(f3, 6);
    vstd::arithmetic::div_mod::lemma_div_nonincreasing(f3, 6);
}

/// `exp(-t)` stays inside `[0, UNIT]`, and is exactly one at zero.
pub proof fn lemma_exp_neg_range(t: int)
    ensures
        0 <= spec_exp_neg(t) <= UNIT,
        t == 0 ==> spec_exp_neg(t) == UNIT,
{
    let u = UNIT as int;
    if t >= 0 {
        let k = t / u;
        let f = t % u;
        vstd::arithmetic::div_mod::lemma_div_pos_is_pos(t, u);
        if k < 14 {
            lemma_inv_e_pow_range(k as nat);
            assert(0 <= f < u);
            lemma_exp_series_range(f);
            let p = spec_inv_e_pow(k as nat);
            let s = spec_exp_series(f);
            assert(0 <= p * s <= u * u) by (nonlinear_arith)
                requires 0 <= p <= u && 0 <= s <= u;
            vstd::arithmetic::div_mod::lemma_div_pos_is_pos(p * s, u);
            vstd::arithmetic::div_mod::lemma_div_is_ordered(p * s, u * u, u);
            assert((u * u) / u == u) by {
                vstd::arithmetic::div_mod::lemma_div_multiples_vanish(u, u);
            };
            if t == 0 {
                assert(k == 0 && f == 0) by {
                    vstd::arithmetic::div_mod::lemma_small_div_converse(t, u);
                    vstd::arithmetic::div_mod::lemma_small_mod(0nat, u as nat);
                };
                assert(spec_inv_e_pow(0) == u);
                assert(spec_exp_series(0) == u) by {
                    assert((0 as int) * (0 as int) == 0) by (nonlinear_arith);
                    vstd::arithmetic::div_mod::lemma_div_of0(u);
                    vstd::arithmetic::div_mod::lemma_div_of0(2);
                    vstd::arithmetic::div_mod::lemma_div_of0(6);
                    vstd::arithmetic::div_mod::lemma_div_of0(24);
                };
                assert((u * u) / u == u) by {
                    vstd::arithmetic::div_mod::lemma_div_multiples_vanish(u, u);
                };
            }
        }
    }
}

/// Computes `exp(-t)` at fixed-point scale.
pub fn exp_neg(t: i64) -> (r: i64)
    ensures
        r == spec_exp_neg(t as int),
        0 <= r <= UNIT,
{
    proof {
        lemma_exp_neg_range(t as int);
    }
    if t < 0 {
        return UNIT;
    }
    let k: i64 = t / UNIT;
    let f: i64 = t % UNIT;
    proof {
        assert(k == t as int / (UNIT as int) && f == t as int % (UNIT as int)) by {
            assert(t >= 0);
        };
        vstd::arithmetic::div_mod::lemma_div_pos_is_pos(t as int, UNIT as int);
    }
    if k >= 14 {
        return 0;
    }
    let mut pow: i64 = UNIT;
    let mut step: i64 = 0;
    while step < k
        invariant
            0 <= step <= k < 14,
            pow == spec_inv_e_pow(step as nat),
            0 <= pow <= UNIT,
        decreases k - step,
    {
        proof {
            assert(0 <= pow as int * INV_E_FP <= (UNIT as int) * INV_E_FP) by (nonlinear_arith)
                requires 0 <= pow <= UNIT;
            lemma_div_range(pow as int * INV_E_FP, UNIT as int, UNIT as int);
            lemma_inv_e_pow_range((step + 1) as nat);
        }
        let p: i128 = (pow as i128) * (INV_E_FP as i128);
        let q: i128 = floor_div128(p, UNIT as i128);
        pow = q as i64;
        step = step + 1;
    }
    let f2: i64 = {
        proof {
            assert(0 <= f as int * f as int <= (UNIT as int) * (UNIT as int))
                by (nonlinear_arith)
                requires 0 <= f <= UNIT;
            lemma_div_range(f as int * f as int, UNIT as int, UNIT as int);
        }
        let q = floor_div128((f as i128) * (f as i128), UNIT as i128);
        q as i64
    };
    let f3: i64 = {
        proof {
            assert(0 <= f2 as int * f as int <= (UNIT as int) * (UNIT as int))
                by (nonlinear_arith)
                requires 0 <= f2 <= UNIT && 0 <= f <= UNIT;
            lemma_div_range(f2 as int * f as int, UNIT as int, UNIT as int);
        }
        let q = floor_div128((f2 as i128) * (f as i128), UNIT as i128);
        q as i64
    };
    let f4: i64 = {
        proof {
            assert(0 <= f3 as int * f as int <= (UNIT as int) * (UNIT as int))
                by (nonlinear_arith)
                requires 0 <= f3 <= UNIT && 0 <= f <= UNIT;
            lemma_div_range(f3 as int * f as int, UNIT as int, UNIT as int);
        }
        let q = floor_div128((f3 as i128) * (f as i128), UNIT as i128);
        q as i64
    };
    let s: i64 = UNIT - f + f2 / 2 - f3 / 6 + f4 / 24;
    proof {
        assert(f2 as int / 2 == (f2 as int) / 2);
        assert(s == spec_exp_series(f as int));
        lemma_exp_series_range(f as int);
        lemma_inv_e_pow_range(k as nat);
        assert(0 <= pow as int * s as int <= (UNIT as int) * (UNIT as int)) by (nonlinear_arith)
            requires 0 <= pow <= UNIT && 0 <= s <= UNIT;
        lemma_div_range(pow as int * s as int, UNIT as int, UNIT as int);
    }
    let q = floor_div128((pow as i128) * (s as i128), UNIT as i128);
    q as i64
}

/// A component representing an intensity distribution with a gaussian
/// profile.
#[derive(Debug, Clone, Copy, PartialEq, Eq, Structural)]
pub struct GaussianBeam {
    /// A point that the laser beam intersects, fixed-point metres.
    pub intersection: Vec3,
    /// Direction the beam propagates in, a unit vector at fixed-point
    /// scale.
    pub direction: Vec3,
    /// Radius of the beam at which the intensity is `1/e` of the peak
    /// value, fixed-point metres. (`e_radius = e^2_radius / sqrt(2)`.)
    pub e_radius: i64,
    /// Power of the laser, fixed-point Watts.
    pub power: i64,
    /// The distance along the propagation direction from the waist to
    /// where the cross-section area doubles, fixed-point metres.
    pub rayleigh_range: i64,
}

impl GaussianBeam {
    /// A beam the intensity kernels accept: bounded geometry, a
    /// non-zero axis, and a waist of at least one lattice step.
    pub open spec fn valid(self) -> bool {
        &&& self.intersection.in_range()
        &&& -2 * (UNIT as int) <= self.direction.x <= 2 * (UNIT as int)
        &&& -2 * (UNIT as int) <= self.direction.y <= 2 * (UNIT as int)
        &&& -2 * (UNIT as int) <= self.direction.z <= 2 * (UNIT as int)
        &&& self.direction != (Vec3 { x: 0, y: 0, z: 0 })
        &&& 1 <= self.e_radius <= MAXQ
        &&& 0 <= self.power <= MAXQ
        &&& 1 <= self.rayleigh_range <= MAXQ
    }

    /// Create a `GaussianBeam` component by specifying the peak
    /// intensity rather than the power: `power = pi e_radius^2 I0`.
    /// With no wavelength given, the Rayleigh range takes the largest
    /// representable value (an effectively collimated beam).
    pub fn from_peak_intensity(
        intersection: Vec3,
        direction: Vec3,
        peak_intensity: i64,
        e_radius: i64,
    ) -> (r: GaussianBeam)
        requires
            0 <= peak_intensity <= MAXQ,
            1 <= e_radius <= MAXQ,
        ensures
            r.intersection == intersection,
            r.direction == direction,
            r.e_radius == e_radius,
            r.rayleigh_range == MAXQ,
            r.power == crate::fixed::clamp_q(
                (PI_FP * (e_radius * e_radius) * peak_intensity) / ((UNIT as int) * (UNIT as int)
                    * (UNIT as int)),
            ),
    {
        let power = power_from_peak(peak_intensity, e_radius);
        GaussianBeam { intersection, direction, e_radius, power, rayleigh_range: MAXQ }
    }

    /// Create a `GaussianBeam` component by specifying the peak
    /// intensity and the wavelength; the Rayleigh range follows from
    /// them.
    pub fn from_peak_intensity_with_rayleigh_range(
        intersection: Vec3,
        direction: Vec3,
        peak_intensity: i64,
        e_radius: i64,
        wavelength: i64,
    ) -> (r: GaussianBeam)
        requires
            0 <= peak_intensity <= MAXQ,
            1 <= e_radius <= MAXQ,
            1 <= wavelength <= MAXQ,
        ensures
            r.intersection == intersection,
            r.direction == direction,
            r.e_radius == e_radius,
            r.rayleigh_range == spec_rayleigh_range(e_radius as int, wavelength as int),
            r.power == crate::fixed::clamp_q(
                (PI_FP * (e_radius * e_radius) * peak_intensity) / ((UNIT as int) * (UNIT as int)
                    * (UNIT as int)),
            ),
    {
        let power = power_from_peak(peak_intensity, e_radius);
        let rayleigh_range = calculate_rayleigh_range(wavelength, e_radius);
        GaussianBeam { intersection, direction, e_radius, power, rayleigh_range }
    }
}

/// The beam power of a given peak intensity:
/// `pi e_radius^2 * I0`, with one fused floor and saturation.
fn power_from_peak(peak_intensity: i64, e_radius: i64) -> (r: i64)
    requires
        0 <= peak_intensity <= MAXQ,
        1 <= e_radius <= MAXQ,
    ensures
        r == crate::fixed::clamp_q(
            (PI_FP * (e_radius * e_radius) * peak_intensity) / ((UNIT as int) * (UNIT as int)
                * (UNIT as int)),
        ),
{
    proof {
        assert(0 <= e_radius as int * e_radius as int <= (MAXQ as int) * (MAXQ as int))
            by (nonlinear_arith)
            requires 0 <= e_radius <= MAXQ;
        assert(0 <= (PI_FP as int) * (e_radius as int * e_radius as int) <= (PI_FP as int) * ((
        MAXQ as int) * (MAXQ as int))) by (nonlinear_arith)
            requires 0 <= e_radius as int * e_radius as int <= (MAXQ as int) * (MAXQ as int);
        let m = (PI_FP as int) * ((MAXQ as int) * (MAXQ as int));
        assert(0 <= ((PI_FP as int) * (e_radius as int * e_radius as int))
            * (peak_intensity as int) <= m * (MAXQ as int)) by (nonlinear_arith)
            requires
                0 <= (PI_FP as int) * (e_radius as int * e_radius as int) <= m && 0
                    <= peak_intensity <= MAXQ && 0 <= m;
    }
    let num: i128 = (PI_FP as i128) * ((e_radius as i128) * (e_radius as i128))
        * (peak_intensity as i128);
    let den: i128 = (UNIT as i128) * (UNIT as i128) * (UNIT as i128);
    proof {
        assert((UNIT as int) * (UNIT as int) * (UNIT as int) > 0) by (nonlinear_arith);
    }
    let p: i128 = floor_div128(num, den);
    crate::fixed::clamp_q128(p)
}

/// The Rayleigh range of a beam: `2 pi e_radius^2 / wavelength`,
/// floored and clamped into the accepted range.
pub open spec fn spec_rayleigh_range(e_radius: int, wavelength: int) -> int {
    let rr = (TWO_PI_FP * (e_radius * e_radius)) / (wavelength * (UNIT as int));
    if rr < 1 {
        1
    } else if rr > MAXQ {
        MAXQ as int
    } else {
        rr
    }
}

/// Computes the Rayleigh range for a given wavelength and waist.
pub fn calculate_rayleigh_range(wavelength: i64, e_radius: i64) -> (r: i64)
    requires
        1 <= wavelength <= MAXQ,
        1 <= e_radius <= MAXQ,
    ensures
        r == spec_rayleigh_range(e_radius as int, wavelength as int),
        1 <= r <= MAXQ,
{
    proof {
        assert(0 <= e_radius as int * e_radius as int <= (MAXQ as int) * (MAXQ as int))
            by (nonlinear_arith)
            requires 0 <= e_radius <= MAXQ;
        assert(0 <= (TWO_PI_FP as int) * (e_radius as int * e_radius as int) <= (TWO_PI_FP as int)
            * ((MAXQ as int) * (MAXQ as int))) by (nonlinear_arith)
            requires 0 <= e_radius as int * e_radius as int <= (MAXQ as int) * (MAXQ as int);
        assert(0 < wavelength as int * (UNIT as int) <= (MAXQ as int) * (UNIT as int))
            by (nonlinear_arith)
            requires 1 <= wavelength <= MAXQ;
        let num = (TWO_PI_FP as int) * (e_radius as int * e_radius as int);
        let mm = (TWO_PI_FP as int) * ((MAXQ as int) * (MAXQ as int));
        assert(num <= mm * (wavelength as int * (UNIT as int))) by (nonlinear_arith)
            requires 0 <= num <= mm && 1 <= wavelength as int * (UNIT as int);
        lemma_div_range(num, wavelength as int * (UNIT as int), mm);
    }
    let num: i128 = (TWO_PI_FP as i128) * ((e_radius as i128) * (e_radius as i128));
    let den: i128 = (wavelength as i128) * (UNIT as i128);
    let rr: i128 = floor_div128(num, den);
    if rr < 1 {
        1
    } else if rr > MAXQ as i128 {
        MAXQ
    } else {
        rr as i64
    }
}

/// A component that covers the central portion of a laser beam; the
/// mask is assumed coaxial to the beam.
#[derive(Debug, Clone, Copy, PartialEq, Eq, Structural)]
pub struct CircularMask {
    /// Radius of the masked region, fixed-point metres.
    pub radius: i64,
}

impl CircularMask {
    pub open spec fn valid(self) -> bool {
        0 <= self.radius <= MAXQ
    }
}

/// A component that stores additional information about a given beam
/// entity: its internal reference frame and ellipticity.
#[derive(Debug, Clone, Copy, PartialEq, Eq, Structural)]
pub struct GaussianReferenceFrame {
    /// First transverse basis vector, a unit vector at fixed-point
    /// scale.
    pub x_vector: Vec3,
    /// Second transverse basis vector, a unit vector at fixed-point
    /// scale.
    pub y_vector: Vec3,
    pub ellipticity: i64,
}

impl GaussianReferenceFrame {
    pub open spec fn valid(self) -> bool {
        &&& -2 * (UNIT as int) <= self.x_vector.x <= 2 * (UNIT as int)
        &&& -2 * (UNIT as int) <= self.x_vector.y <= 2 * (UNIT as int)
        &&& -2 * (UNIT as int) <= self.x_vector.z <= 2 * (UNIT as int)
        &&& -2 * (UNIT as int) <= self.y_vector.x <= 2 * (UNIT as int)
        &&& -2 * (UNIT as int) <= self.y_vector.y <= 2 * (UNIT as int)
        &&& -2 * (UNIT as int) <= self.y_vector.z <= 2 * (UNIT as int)
    }
}

/// The squared-distance split of a position against a beam axis: the
/// raw axial part `dot^2 / dd` and radial part `nsq - dot^2 / dd` of
/// the squared offset, both at doubled scale.
pub open spec fn spec_axis_split(beam: GaussianBeam, pos: Vec3) -> (int, int) {
    let dx = pos.x - beam.intersection.x;
    let dy = pos.y - beam.intersection.y;
    let dz = pos.z - beam.intersection.z;
    let dd = beam.direction.x * beam.direction.x + beam.direction.y * beam.direction.y
        + beam.direction.z * beam.direction.z;
    let dot = dx * beam.direction.x + dy * beam.direction.y + dz * beam.direction.z;
    let nsq = dx * dx + dy * dy + dz * dz;
    let a2 = (dot * dot) / dd;
    let d2 = if nsq - a2 < 0 {
        0
    } else {
        nsq - a2
    };
    (a2, d2)
}

/// The intensity of a gaussian beam at a position:
/// `power * broadening * exp(-d^2 / e_radius^2) / (pi e_radius^2)`,
/// with `broadening = zR^2 / (zR^2 + z^2)`; a coaxial mask zeroes the
/// power inside its radius, and every division is an explicit floor.
pub open spec fn spec_gaussian_intensity(
    beam: GaussianBeam,
    pos: Vec3,
    mask: Option<CircularMask>,
) -> int {
    let split = spec_axis_split(beam, pos);
    let z2 = split.0;
    let d2 = split.1;
    let pw = match mask {
        Some(m) => if d2 < m.radius * m.radius {
            0
        } else {
            beam.power as int
        },
        None => beam.power as int,
    };
    let zr2 = beam.rayleigh_range * beam.rayleigh_range;
    let broad = ((UNIT as int) * zr2) / (zr2 + z2);
    let er2 = beam.e_radius * beam.e_radius;
    let t = (d2 * (UNIT as int)) / er2;
    let ev = if t >= 14 * (UNIT as int) {
        0
    } else {
        spec_exp_neg(t)
    };
    let i1 = (pw * broad) / (UNIT as int);
    let i2 = (i1 * ev) / (UNIT as int);
    clamp64(
        (i2 * (UNIT as int) * (UNIT as int) * (UNIT as int)) / (PI_FP * (beam.e_radius
            * beam.e_radius)),
    )
}

/// Returns the intensity of a gaussian laser beam at the specified
/// position.
pub fn get_gaussian_beam_intensity(beam: &GaussianBeam, pos: &Vec3, mask: Option<&CircularMask>) -> (r: i64)
    requires
        beam.valid(),
        pos.in_range(),
        match mask {
            Some(m) => m.valid(),
            None => true,
        },
    ensures
        r == spec_gaussian_intensity(
            *beam,
            *pos,
            match mask {
                Some(m) => Some(*m),
                None => None,
            },
        ),
        r >= 0,
{
    let dx: i64 = pos.x - beam.intersection.x;
    let dy: i64 = pos.y - beam.intersection.y;
    let dz: i64 = pos.z - beam.intersection.z;
    let d = beam.direction;
    proof {
        let u2 = 2 * (UNIT as int);
        let q2 = 2 * (MAXQ as int);
        assert(0 <= d.x as int * d.x as int <= u2 * u2 && 0 <= d.y as int * d.y as int <= u2 * u2
            && 0 <= d.z as int * d.z as int <= u2 * u2) by (nonlinear_arith)
            requires -u2 <= d.x <= u2 && -u2 <= d.y <= u2 && -u2 <= d.z <= u2;
        assert(-(q2 * u2) <= dx as int * d.x as int <= q2 * u2 && -(q2 * u2) <= dy as int
            * d.y as int <= q2 * u2 && -(q2 * u2) <= dz as int * d.z as int <= q2 * u2)
            by (nonlinear_arith)
            requires
                -q2 <= dx <= q2 && -q2 <= dy <= q2 && -q2 <= dz <= q2 && -u2 <= d.x <= u2 && -u2
                    <= d.y <= u2 && -u2 <= d.z <= u2;
        assert(0 <= dx as int * dx as int <= q2 * q2 && 0 <= dy as int * dy as int <= q2 * q2 && 0
            <= dz as int * dz as int <= q2 * q2) by (nonlinear_arith)
            requires -q2 <= dx <= q2 && -q2 <= dy <= q2 && -q2 <= dz <= q2;
        assert(d.x != 0 || d.y != 0 || d.z != 0);
        assert(d.x as int * d.x as int + d.y as int * d.y as int + d.z as int * d.z as int >= 1)
            by (nonlinear_arith)
            requires d.x != 0 || d.y != 0 || d.z != 0;
    }
    let dd: i128 = (d.x as i128) * (d.x as i128) + (d.y as i128) * (d.y as i128) + (d.z as i128)
        * (d.z as i128);
    let dot: i128 = (dx as i128) * (d.x as i128) + (dy as i128) * (d.y as i128) + (dz as i128)
        * (d.z as i128);
    let nsq: i128 = (dx as i128) * (dx as i128) + (dy as i128) * (dy as i128) + (dz as i128)
        * (dz as i128);
    proof {
        let u2 = 2 * (UNIT as int);
        let q2 = 2 * (MAXQ as int);
        assert(0 <= dot as int * dot as int <= (3 * (q2 * u2)) * (3 * (q2 * u2)))
            by (nonlinear_arith)
            requires -(3 * (q2 * u2)) <= dot <= 3 * (q2 * u2);
        vstd::arithmetic::div_mod::lemma_div_pos_is_pos(dot as int * dot as int, dd as int);
    }
    let a2: i128 = floor_div128(dot * dot, dd);
    let d2: i128 = if nsq - a2 < 0 {
        0
    } else {
        nsq - a2
    };
    let z2: i128 = a2;
    let pw: i64 = match mask {
        Some(m) => {
            proof {
                assert(0 <= m.radius as int * m.radius as int <= (MAXQ as int) * (MAXQ as int))
                    by (nonlinear_arith)
                    requires 0 <= m.radius <= MAXQ;
            }
            if d2 < (m.radius as i128) * (m.radius as i128) {
                0i64
            } else {
                beam.power
            }
        },
        None => beam.power,
    };
    proof {
        assert(1 <= beam.rayleigh_range as int * beam.rayleigh_range as int <= (MAXQ as int) * (
        MAXQ as int)) by (nonlinear_arith)
            requires 1 <= beam.rayleigh_range <= MAXQ;
    }
    let zr2: i128 = (beam.rayleigh_range as i128) * (beam.rayleigh_range as i128);
    proof {
        assert(0 <= (UNIT as int) * (zr2 as int)) by (nonlinear_arith)
            requires 0 <= zr2;
        assert((UNIT as int) * (zr2 as int) <= (UNIT as int) * (zr2 as int + z2 as int))
            by (nonlinear_arith)
            requires 0 <= zr2 && 0 <= z2;
        vstd::arithmetic::div_mod::lemma_div_pos_is_pos(
            (UNIT as int) * (zr2 as int),
            zr2 as int + z2 as int,
        );
        assert(((UNIT as int) * (zr2 as int)) / (zr2 as int + z2 as int) <= UNIT) by {
            vstd::arithmetic::div_mod::lemma_div_is_ordered(
                (UNIT as int) * (zr2 as int),
                (zr2 as int + z2 as int) * (UNIT as int),
                zr2 as int + z2 as int,
            );
            vstd::arithmetic::div_mod::lemma_div_by_multiple(
                UNIT as int,
                zr2 as int + z2 as int,
            );
            assert((UNIT as int) * (zr2 as int + z2 as int) == (zr2 as int + z2 as int) * (
            UNIT as int)) by (nonlinear_arith);
        };
    }
    let broad: i128 = floor_div128((UNIT as i128) * zr2, zr2 + z2);
    proof {
        assert(1 <= beam.e_radius as int * beam.e_radius as int <= (MAXQ as int) * (MAXQ as int))
            by (nonlinear_arith)
            requires 1 <= beam.e_radius <= MAXQ;
    }
    let er2: i128 = (beam.e_radius as i128) * (beam.e_radius as i128);
    proof {
        assert(0 <= d2 as int * (UNIT as int)) by (nonlinear_arith)
            requires 0 <= d2;
        vstd::arithmetic::div_mod::lemma_div_pos_is_pos(d2 as int * (UNIT as int), er2 as int);
    }
    let t: i128 = floor_div128(d2 * (UNIT as i128), er2);
    let ev: i64 = if t >= 14 * (UNIT as i128) {
        0
    } else {
        exp_neg(t as i64)
    };
    proof {
        assert(0 <= pw as int * broad as int <= (MAXQ as int) * (UNIT as int))
            by (nonlinear_arith)
            requires 0 <= pw <= MAXQ && 0 <= broad <= UNIT;
        lemma_div_range(pw as int * broad as int, UNIT as int, MAXQ as int);
    }
    let i1: i128 = floor_div128((pw as i128) * broad, UNIT as i128);
    proof {
        assert(0 <= i1 as int * ev as int <= (MAXQ as int) * (UNIT as int)) by (nonlinear_arith)
            requires 0 <= i1 <= MAXQ && 0 <= ev <= UNIT;
        lemma_div_range(i1 as int * ev as int, UNIT as int, MAXQ as int);
    }
    let i2: i128 = floor_div128(i1 * (ev as i128), UNIT as i128);
    proof {
        assert((PI_FP as int) * (er2 as int) >= 1) by (nonlinear_arith)
            requires er2 >= 1 && PI_FP >= 1;
        assert(0 <= i2 as int * (UNIT as int) * (UNIT as int) * (UNIT as int) <= (MAXQ as int)
            * (UNIT as int) * (UNIT as int) * (UNIT as int)) by (nonlinear_arith)
            requires 0 <= i2 <= MAXQ;
        vstd::arithmetic::div_mod::lemma_div_pos_is_pos(
            i2 as int * (UNIT as int) * (UNIT as int) * (UNIT as int),
            (PI_FP as int) * (er2 as int),
        );
    }
    let num: i128 = i2 * (UNIT as i128) * (UNIT as i128) * (UNIT as i128);
    let r: i128 = floor_div128(num, (PI_FP as i128) * er2);
    crate::fixed::clamp_to_i64(r)
}

/// The analytic intensity gradient of a beam at a position, in the
/// beam's local frame `(x_vector, y_vector, direction)`: with
/// `w(z)^2 = 2 e_radius^2 (1 + (z/zR)^2)` the broadened squared spot
/// size, the gradient is
/// `I / w^2 * (-4 (x_vector x + y_vector y) + direction * z / (zR^2 + z^2) * (4 (x^2 + y^2) - w^2))`
/// with `I = 2 P / (pi w^2) * exp(-2 (x^2+y^2) / w^2)`. The squared
/// lengths stay at raw (doubled) scale, so a waist of a single lattice
/// step is admitted; every division is an explicit floor, the
/// broadening and exponential arguments are capped far outside the
/// beam, and the intermediate factors and the components saturate.
pub open spec fn spec_gaussian_gradient(
    beam: GaussianBeam,
    pos: Vec3,
    frame: GaussianReferenceFrame,
) -> (int, int, int) {
    let u = UNIT as int;
    let dx = pos.x - beam.intersection.x;
    let dy = pos.y - beam.intersection.y;
    let dz = pos.z - beam.intersection.z;
    let x = (dx * frame.x_vector.x + dy * frame.x_vector.y + dz * frame.x_vector.z) / u;
    let y = (dx * frame.y_vector.x + dy * frame.y_vector.y + dz * frame.y_vector.z) / u;
    let z = (dx * beam.direction.x + dy * beam.direction.y + dz * beam.direction.z) / u;
    let er2 = beam.e_radius * beam.e_radius;
    let zr2 = beam.rayleigh_range * beam.rayleigh_range;
    let z2r = z * z;
    let zq2_raw = (z2r * u) / zr2;
    let zq2 = if zq2_raw > u * u {
        u * u
    } else {
        zq2_raw
    };
    let bf = u + zq2;
    let spot2_raw = (2 * er2 * bf) / u;
    let spot2 = if spot2_raw > 0x4000_0000_0000_0000 {
        0x4000_0000_0000_0000 as int
    } else if spot2_raw < 2 {
        2
    } else {
        spot2_raw
    };
    let xy2 = x * x + y * y;
    let targ = (2 * xy2 * u) / spot2;
    let ev = if targ >= 14 * u {
        0
    } else {
        spec_exp_neg(targ)
    };
    let i1 = (2 * beam.power * u * u * u) / (PI_FP * spot2);
    let einten = crate::fixed::clamp_sym((i1 * ev) / u, 0x400_0000_0000_0000);
    let vnum = 4 * xy2 - spot2;
    let zfac = clamp64((z * vnum) / (zr2 + z2r));
    let vx = crate::fixed::clamp_sym(
        -4 * ((frame.x_vector.x * x + frame.y_vector.x * y) / u) + (beam.direction.x * zfac) / u,
        0x1_0000_0000_0000,
    );
    let vy = crate::fixed::clamp_sym(
        -4 * ((frame.x_vector.y * x + frame.y_vector.y * y) / u) + (beam.direction.y * zfac) / u,
        0x1_0000_0000_0000,
    );
    let vz = crate::fixed::clamp_sym(
        -4 * ((frame.x_vector.z * x + frame.y_vector.z * y) / u) + (beam.direction.z * zfac) / u,
        0x1_0000_0000_0000,
    );
    (
        clamp64((einten * vx * u) / spot2),
        clamp64((einten * vy * u) / spot2),
        clamp64((einten * vz * u) / spot2),
    )
}

/// Computes the intensity gradient of a given beam and returns it as a
/// three-dimensional vector.
pub fn get_gaussian_beam_intensity_gradient(
    beam: &GaussianBeam,
    pos: &Vec3,
    reference_frame: &GaussianReferenceFrame,
) -> (r: Vec3)
    requires
        beam.valid(),
        pos.in_range(),
        reference_frame.valid(),
    ensures
        (r.x as int, r.y as int, r.z as int) == spec_gaussian_gradient(
            *beam,
            *pos,
            *reference_frame,
        ),
{
    let u: i128 = UNIT as i128;
    let dx: i64 = pos.x - beam.intersection.x;
    let dy: i64 = pos.y - beam.intersection.y;
    let dz: i64 = pos.z - beam.intersection.z;
    let xv = reference_frame.x_vector;
    let yv = reference_frame.y_vector;
    let d = beam.direction;
    proof {
        let u2 = 2 * (UNIT as int);
        let q2 = 2 * (MAXQ as int);
        assert forall|a: i64, b: i64|
            (-q2 <= a <= q2 && -u2 <= b <= u2) implies -(q2 * u2) <= #[trigger] (a as int
            * b as int) <= q2 * u2 by {
            assert(-(q2 * u2) <= a as int * b as int <= q2 * u2) by (nonlinear_arith)
                requires -q2 <= a <= q2 && -u2 <= b <= u2;
        }
    }
    let x128: i128 = (dx as i128) * (xv.x as i128) + (dy as i128) * (xv.y as i128) + (dz as i128)
        * (xv.z as i128);
    let y128: i128 = (dx as i128) * (yv.x as i128) + (dy as i128) * (yv.y as i128) + (dz as i128)
        * (yv.z as i128);
    let z128: i128 = (dx as i128) * (d.x as i128) + (dy as i128) * (d.y as i128) + (dz as i128)
        * (d.z as i128);
    proof {
        assert((12 * (MAXQ as int)) * (UNIT as int) == 3 * ((2 * (MAXQ as int)) * (2 * (
        UNIT as int)))) by (nonlinear_arith);
        crate::fixed::lemma_div_range(x128 as int, UNIT as int, 12 * (MAXQ as int));
        crate::fixed::lemma_div_range(y128 as int, UNIT as int, 12 * (MAXQ as int));
        crate::fixed::lemma_div_range(z128 as int, UNIT as int, 12 * (MAXQ as int));
    }
    let x: i128 = floor_div128(x128, u);
    let y: i128 = floor_div128(y128, u);
    let z: i128 = floor_div128(z128, u);
    proof {
        assert(12 * (MAXQ as int) == 12884901888) by (nonlinear_arith);
        assert((12884901888 as int) * 12884901888 == 166020696663385964544)
            by (nonlinear_arith);
        assert(0 <= x as int * x as int <= 166020696663385964544) by (nonlinear_arith)
            requires -12884901888 <= x <= 12884901888;
        assert(0 <= y as int * y as int <= 166020696663385964544) by (nonlinear_arith)
            requires -12884901888 <= y <= 12884901888;
        assert(0 <= z as int * z as int <= 166020696663385964544) by (nonlinear_arith)
            requires -12884901888 <= z <= 12884901888;
        assert(1 <= beam.e_radius as int * beam.e_radius as int <= (MAXQ as int) * (MAXQ as int))
            by (nonlinear_arith)
            requires 1 <= beam.e_radius <= MAXQ;
        assert(1 <= beam.rayleigh_range as int * beam.rayleigh_range as int <= (MAXQ as int) * (
        MAXQ as int)) by (nonlinear_arith)
            requires 1 <= beam.rayleigh_range <= MAXQ;
    }
    let er2: i128 = (beam.e_radius as i128) * (beam.e_radius as i128);
    let zr2: i128 = (beam.rayleigh_range as i128) * (beam.rayleigh_range as i128);
    let z2r: i128 = z * z;
    proof {
        assert(0 <= z2r as int * (UNIT as int) <= (166020696663385964544 as int) * (UNIT as int))
            by (nonlinear_arith)
            requires 0 <= z2r <= 166020696663385964544;
        vstd::arithmetic::div_mod::lemma_div_pos_is_pos(z2r as int * (UNIT as int), zr2 as int);
    }
    let zq2_raw: i128 = floor_div128(z2r * u, zr2);
    let zq2: i128 = if zq2_raw > u * u {
        u * u
    } else {
        zq2_raw
    };
    let bf: i128 = u + zq2;
    proof {
        assert(0 <= 2 * er2 as int * bf as int <= 2 * ((MAXQ as int) * (MAXQ as int)) * (2 * (
        UNIT as int) * (UNIT as int))) by (nonlinear_arith)
            requires
                0 <= er2 <= (MAXQ as int) * (MAXQ as int) && 0 <= bf <= 2 * (UNIT as int) * (
                UNIT as int);
        assert(2 * er2 as int * bf as int >= 2 * (UNIT as int)) by (nonlinear_arith)
            requires bf >= UNIT && er2 >= 1;
        assert((2 * er2 as int * bf as int) / (UNIT as int) >= 2) by {
            vstd::arithmetic::div_mod::lemma_div_is_ordered(
                2 * (UNIT as int),
                2 * er2 as int * bf as int,
                UNIT as int,
            );
            vstd::arithmetic::div_mod::lemma_div_multiples_vanish(2, UNIT as int);
            assert((UNIT as int) * 2 == 2 * (UNIT as int)) by (nonlinear_arith);
        };
    }
    let spot2_raw: i128 = floor_div128(2 * er2 * bf, u);
    let spot2: i128 = if spot2_raw > 0x4000_0000_0000_0000 {
        0x4000_0000_0000_0000
    } else if spot2_raw < 2 {
        2
    } else {
        spot2_raw
    };
    proof {
        assert(2 <= spot2 <= 0x4000_0000_0000_0000);
    }
    let xy2: i128 = x * x + y * y;
    proof {
        assert(0 <= xy2 <= 2 * (166020696663385964544 as int));
        assert(0 <= 2 * xy2 as int * (UNIT as int) <= (4 * (166020696663385964544 as int)) * (
        UNIT as int)) by (nonlinear_arith)
            requires 0 <= xy2 <= 2 * (166020696663385964544 as int);
        vstd::arithmetic::div_mod::lemma_div_pos_is_pos(
            2 * xy2 as int * (UNIT as int),
            spot2 as int,
        );
    }
    let targ: i128 = floor_div128(2 * xy2 * u, spot2);
    let ev: i64 = if targ >= 14 * u {
        0
    } else {
        exp_neg(targ as i64)
    };
    proof {
        assert(0 <= 2 * beam.power as int * (UNIT as int) * (UNIT as int) * (UNIT as int) <= 2
            * (MAXQ as int) * (UNIT as int) * (UNIT as int) * (UNIT as int)) by (nonlinear_arith)
            requires 0 <= beam.power <= MAXQ;
        assert((PI_FP as int) * (spot2 as int) >= 1) by (nonlinear_arith)
            requires spot2 >= 2 && PI_FP >= 1;
        vstd::arithmetic::div_mod::lemma_div_pos_is_pos(
            2 * beam.power as int * (UNIT as int) * (UNIT as int) * (UNIT as int),
            (PI_FP as int) * (spot2 as int),
        );
        vstd::arithmetic::div_mod::lemma_div_nonincreasing(
            2 * beam.power as int * (UNIT as int) * (UNIT as int) * (UNIT as int),
            (PI_FP as int) * (spot2 as int),
        );
    }
    let i1: i128 = floor_div128(
        2 * (beam.power as i128) * u * u * u,
        (PI_FP as i128) * spot2,
    );
    proof {
        assert(0 <= i1 as int * ev as int <= (2 * (MAXQ as int) * (UNIT as int) * (UNIT as int)
            * (UNIT as int)) * (UNIT as int)) by (nonlinear_arith)
            requires
                0 <= i1 <= 2 * (MAXQ as int) * (UNIT as int) * (UNIT as int) * (UNIT as int) && 0
                    <= ev <= UNIT;
        vstd::arithmetic::div_mod::lemma_div_pos_is_pos(i1 as int * ev as int, UNIT as int);
    }
    let einten_raw: i128 = floor_div128(i1 * (ev as i128), u);
    let einten: i64 = crate::fixed::clamp_sym128(einten_raw, 0x400_0000_0000_0000);
    let vnum: i128 = 4 * xy2 - spot2;
    proof {
        assert(-(1332777259325515104256 as int) <= vnum as int <= 1332777259325515104256);
        assert(-(17172704224966795173400651235328 as int) <= z as int * vnum as int
            <= 17172704224966795173400651235328) by (nonlinear_arith)
            requires
                -12884901888 <= z <= 12884901888 && -(1332777259325515104256 as int) <= vnum
                    <= 1332777259325515104256;
    }
    let zfac_raw: i128 = floor_div128(z * vnum, zr2 + z2r);
    let zfac: i64 = clamp_to_i64(zfac_raw);
    let gx: i64 = gradient_component(xv.x, x, yv.x, y, d.x, zfac, einten, spot2);
    let gy: i64 = gradient_component(xv.y, x, yv.y, y, d.y, zfac, einten, spot2);
    let gz: i64 = gradient_component(xv.z, x, yv.z, y, d.z, zfac, einten, spot2);
    Vec3 { x: gx, y: gy, z: gz }
}

/// One component of the gradient: the transverse and axial vector parts
/// combined (saturated) and scaled by the intensity over the squared
/// spot size.
fn gradient_component(
    xvc: i64,
    x: i128,
    yvc: i64,
    y: i128,
    dc: i64,
    zfac: i64,
    einten: i64,
    spot2: i128,
) -> (r: i64)
    requires
        -2 * (UNIT as int) <= xvc <= 2 * (UNIT as int),
        -2 * (UNIT as int) <= yvc <= 2 * (UNIT as int),
        -2 * (UNIT as int) <= dc <= 2 * (UNIT as int),
        -(12 * (MAXQ as int)) <= x <= 12 * (MAXQ as int),
        -(12 * (MAXQ as int)) <= y <= 12 * (MAXQ as int),
        -0x400_0000_0000_0000 <= einten <= 0x400_0000_0000_0000,
        2 <= spot2 <= 0x4000_0000_0000_0000,
    ensures
        r as int == crate::fixed::clamp64(
            (einten as int * crate::fixed::clamp_sym(
                -4 * ((xvc as int * x as int + yvc as int * y as int) / (UNIT as int)) + (
                dc as int * zfac as int) / (UNIT as int),
                0x1_0000_0000_0000,
            ) * (UNIT as int)) / (spot2 as int),
        ),
{
    proof {
        let u2 = 2 * (UNIT as int);
        let xb = 12 * (MAXQ as int);
        assert((2 * (UNIT as int)) * (12 * (MAXQ as int)) == 25769803776000000)
            by (nonlinear_arith);
        assert(u2 * xb == 25769803776000000);
        assert(-(u2 * xb) <= xvc as int * x as int <= u2 * xb && -(u2 * xb) <= yvc as int
            * y as int <= u2 * xb) by (nonlinear_arith)
            requires
                -u2 <= xvc <= u2 && -xb <= x <= xb && -u2 <= yvc <= u2 && -xb <= y <= xb && 0
                    <= u2 && 0 <= xb;
        assert(0 <= 2 * (u2 * xb)) by (nonlinear_arith)
            requires 0 <= u2 && 0 <= xb;
        assert(2 * (u2 * xb) <= (2 * (u2 * xb)) * (UNIT as int)) by (nonlinear_arith)
            requires 0 <= 2 * (u2 * xb);
        lemma_div_range(
            xvc as int * x as int + yvc as int * y as int,
            UNIT as int,
            2 * (u2 * xb),
        );
        assert((2 * (UNIT as int)) * (0x8000_0000_0000_0000 as int)
            == 18446744073709551616000000) by (nonlinear_arith);
        assert(u2 * (0x8000_0000_0000_0000 as int) == 18446744073709551616000000);
        assert(-(u2 * (0x8000_0000_0000_0000 as int)) <= dc as int * zfac as int <= u2 * (
        0x8000_0000_0000_0000 as int)) by (nonlinear_arith)
            requires
                -u2 <= dc <= u2 && -0x8000_0000_0000_0000 <= zfac <= 0x8000_0000_0000_0000 && 0
                    <= u2;
        lemma_div_range(
            dc as int * zfac as int,
            UNIT as int,
            u2 * (0x8000_0000_0000_0000 as int),
        );
    }
    let t1: i128 = floor_div128((xvc as i128) * x + (yvc as i128) * y, UNIT as i128);
    let t2: i128 = floor_div128((dc as i128) * (zfac as i128), UNIT as i128);
    let v: i64 = crate::fixed::clamp_sym128(-4 * t1 + t2, 0x1_0000_0000_0000);
    proof {
        assert((0x400_0000_0000_0000 as int) * (0x1_0000_0000_0000 as int)
            == 81129638414606681695789005144064) by (nonlinear_arith);
        assert(-(81129638414606681695789005144064 as int) <= einten as int * v as int
            <= 81129638414606681695789005144064) by (nonlinear_arith)
            requires
                -0x400_0000_0000_0000 <= einten <= 0x400_0000_0000_0000 && -0x1_0000_0000_0000
                    <= v <= 0x1_0000_0000_0000;
        assert(-((81129638414606681695789005144064 as int) * (UNIT as int)) <= einten as int
            * v as int * (UNIT as int) <= (81129638414606681695789005144064 as int) * (
        UNIT as int)) by (nonlinear_arith)
            requires
                -(81129638414606681695789005144064 as int) <= einten as int * v as int
                    <= 81129638414606681695789005144064;
        assert((81129638414606681695789005144064 as int) * (UNIT as int)
            == 81129638414606681695789005144064000000) by (nonlinear_arith);
    }
    let num: i128 = einten as i128 * (v as i128) * (UNIT as i128);
    let q: i128 = floor_div128(num, spot2);
    clamp_to_i64(q)
}

/// Law (on-axis waist intensity): at the beam intersection the
/// broadening factor and the exponential are exactly one, so the
/// intensity is exactly `power / (pi e_radius^2)` on the fixed-point
/// lattice: `power * UNIT^3 / (PI_FP * e_radius^2)`, floored and
/// saturated.
pub proof fn lemma_on_axis_waist_intensity(beam: GaussianBeam)
    requires
        beam.valid(),
    ensures
        spec_gaussian_intensity(beam, beam.intersection, None) == clamp64(
            (beam.power * (UNIT as int) * (UNIT as int) * (UNIT as int)) / (PI_FP * (
            beam.e_radius * beam.e_radius)),
        ),
{
    let u = UNIT as int;
    let dd = beam.direction.x * beam.direction.x + beam.direction.y * beam.direction.y
        + beam.direction.z * beam.direction.z;
    assert(beam.direction.x * beam.direction.x + beam.direction.y * beam.direction.y
        + beam.direction.z * beam.direction.z >= 1) by (nonlinear_arith)
        requires
            beam.direction.x != 0 || beam.direction.y != 0 || beam.direction.z != 0;
    assert((0 as int) * beam.direction.x == 0 && (0 as int) * beam.direction.y == 0 && (0 as int)
        * beam.direction.z == 0) by (nonlinear_arith);
    assert((0 as int) * (0 as int) == 0) by (nonlinear_arith);
    vstd::arithmetic::div_mod::lemma_div_of0(dd);
    let split = spec_axis_split(beam, beam.intersection);
    assert(split == (0int, 0int));
    let zr2 = beam.rayleigh_range * beam.rayleigh_range;
    assert(beam.rayleigh_range * beam.rayleigh_range >= 1) by (nonlinear_arith)
        requires beam.rayleigh_range >= 1;
    assert((u * zr2) / (zr2 + 0) == u) by {
        vstd::arithmetic::div_mod::lemma_div_multiples_vanish(u, zr2);
        assert(zr2 * u == u * zr2) by (nonlinear_arith);
    };
    let er2 = beam.e_radius * beam.e_radius;
    assert(beam.e_radius * beam.e_radius >= 1) by (nonlinear_arith)
        requires beam.e_radius >= 1;
    assert((0 as int) * u == 0) by (nonlinear_arith);
    vstd::arithmetic::div_mod::lemma_div_of0(er2);
    lemma_exp_neg_range(0);
    assert(spec_exp_neg(0) == u);
    assert((beam.power * u) / u == beam.power as int) by {
        vstd::arithmetic::div_mod::lemma_div_multiples_vanish(beam.power as int, u);
        assert(u * beam.power == beam.power * u) by (nonlinear_arith);
    };
}

} // verus!
