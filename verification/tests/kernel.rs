//! Tests of the pure kernels: cell ids, fields, populations, beams.

use coldatoms::fixed::MAXQ;
use coldatoms::fixed::UNIT;
use coldatoms::gaussian::exp_neg;
use coldatoms::gaussian::get_gaussian_beam_intensity;
use coldatoms::gaussian::get_gaussian_beam_intensity_gradient;
use coldatoms::gaussian::CircularMask;
use coldatoms::gaussian::GaussianBeam;
use coldatoms::gaussian::GaussianReferenceFrame;
use coldatoms::grid::PrecalculatedMagneticFieldGrid;
use coldatoms::output::if_detect;
use coldatoms::output::if_detect_ring;
use coldatoms::output::Detector;
use coldatoms::output::RingDetector;
use coldatoms::partition::get_max;
use coldatoms::partition::get_min;
use coldatoms::partition::pos_to_id;
use coldatoms::partition::SENTINEL_ID;
use coldatoms::quadrupole::QuadrupoleField3D;
use coldatoms::quadrupole::Sample3DQuadrupoleFieldSystem;
use coldatoms::twolevel::excited_fraction;
use coldatoms::vec3::Vec3;

/// One metre at fixed-point scale.
const M: i64 = UNIT;

#[test]
fn test_pos_to_id() {
    let n: i64 = 10;
    let width: i64 = 2 * M;

    let pos1 = Vec3::new(0, 0, 0);
    let pos2 = Vec3::new(1 * M, 0, 0);
    let pos3 = Vec3::new(2 * M, 0, 0);
    let pos4 = Vec3::new(9_900_000, 0, 0);
    let pos5 = Vec3::new(-9_900_000, 0, 0);
    let pos6 = Vec3::new(10_100_000, 0, 0);
    let pos7 = Vec3::new(-9_900_000, -9_900_000, -9_900_000);

    let id1 = pos_to_id(pos1, n, width);
    let id2 = pos_to_id(pos2, n, width);
    let id3 = pos_to_id(pos3, n, width);
    let id4 = pos_to_id(pos4, n, width);
    let id5 = pos_to_id(pos5, n, width);
    let id6 = pos_to_id(pos6, n, width);
    let id7 = pos_to_id(pos7, n, width);

    assert_eq!(id1, 555);
    assert_eq!(id2, 555);
    assert_eq!(id3, 556);
    assert_eq!(id4, 559);
    assert_eq!(id5, 550);
    assert_eq!(id6, i64::MAX);
    assert_eq!(id7, 0);
}

#[test]
fn test_pos_to_id_sentinel_is_reserved() {
    assert_eq!(SENTINEL_ID, i64::MAX);
    // The largest in-range id of a 10-box lattice is 999.
    let id = pos_to_id(Vec3::new(9_900_000, 9_900_000, 9_900_000), 10, 2 * M);
    assert_eq!(id, 999);
}

/// Tests the correct implementation of the quadrupole 3D field.
#[test]
fn test_quadrupole_3d_field() {
    let pos = Vec3::new(1 * M, 1 * M, 1 * M);
    let centre = Vec3::new(0, 1 * M, 0);
    let gradient = 1 * M;
    let field = Sample3DQuadrupoleFieldSystem::calculate_field(
        pos,
        centre,
        gradient,
        Vec3::new(0, 0, UNIT),
    );
    assert_eq!(field, Vec3::new(1 * M, 0, -2 * M));
}

#[test]
fn test_gauss_per_cm_normalizes_axis() {
    let q = QuadrupoleField3D::gauss_per_cm(100, Vec3::new(0, 0, 3));
    assert_eq!(q.gradient, 1);
    assert_eq!(q.direction, Vec3::new(0, 0, UNIT));

    let q2 = QuadrupoleField3D::gauss_per_cm(250, Vec3::new(0, 5 * M, 0));
    assert_eq!(q2.gradient, 2);
    assert_eq!(q2.direction, Vec3::new(0, UNIT, 0));
}

#[test]
fn test_if_detect() {
    assert!(if_detect(
        &Detector { centre: Vec3::new(0, 0, 0), range: Vec3::new(1 * M, 1 * M, 1 * M) },
        &Vec3::new(900_000, 800_000, -700_000),
    ));
    assert!(!if_detect(
        &Detector { centre: Vec3::new(0, 0, 0), range: Vec3::new(1 * M, 1 * M, 1 * M) },
        &Vec3::new(1_100_000, 0, 0),
    ));
}

#[test]
fn test_if_detect_ring() {
    let ring = RingDetector {
        centre: Vec3::new(0, 0, 0),
        direction: Vec3::new(0, 0, UNIT),
        radius: 1 * M,
        width: 1 * M,
        thickness: 1 * M,
    };
    // In the radial band, on the ring plane.
    assert!(if_detect_ring(&ring, &Vec3::new(1_500_000, 0, 0)));
    // Inside the inner radius.
    assert!(!if_detect_ring(&ring, &Vec3::new(500_000, 0, 0)));
    // Beyond the outer radius.
    assert!(!if_detect_ring(&ring, &Vec3::new(2_500_000, 0, 0)));
    // In the band, but too far from the ring plane.
    assert!(!if_detect_ring(&ring, &Vec3::new(1_500_000, 0, 1 * M)));
}

#[test]
fn test_two_level_excited_fraction() {
    let linewidth = 1 * M;
    // A vanishing total rate gives exactly zero.
    assert_eq!(excited_fraction(linewidth, 0), 0);
    // Exact value of the steady-state formula at a unit rate.
    assert_eq!(excited_fraction(linewidth, (1 * M) as i128), 120_726);
    // The fraction stays strictly below one half (of UNIT) ...
    let big = excited_fraction(linewidth, (MAXQ as i128) * 1000);
    assert!(big < UNIT / 2 + 1);
    assert!(big >= 0);
    // ... and increases monotonically with the rate.
    let lo = excited_fraction(linewidth, (1 * M) as i128);
    let hi = excited_fraction(linewidth, (2 * M) as i128);
    assert_eq!(hi, 194_492);
    assert!(lo <= hi);
}

#[test]
fn test_exp_neg_values() {
    assert_eq!(exp_neg(0), UNIT);
    // exp(-1) at fixed-point scale, via the power-of-1/e reduction.
    assert_eq!(exp_neg(UNIT), 367_879);
    // Negative arguments clamp to one, deep tails to zero.
    assert_eq!(exp_neg(-5), UNIT);
    assert_eq!(exp_neg(20 * UNIT), 0);
    // Monotone decrease on a few sample points.
    let a = exp_neg(100_000);
    let b = exp_neg(200_000);
    let c = exp_neg(400_000);
    assert!(UNIT > a && a > b && b > c && c > 0);
}

#[test]
fn test_gaussian_on_axis_waist_intensity() {
    let beam = GaussianBeam {
        intersection: Vec3::new(0, 0, 0),
        direction: Vec3::new(0, 0, UNIT),
        e_radius: 2_000,
        power: 2 * M,
        rayleigh_range: MAXQ,
    };
    // On the axis at the waist: power / (pi e_radius^2) exactly, on the
    // fixed-point lattice (pi e_radius^2 is 12 here).
    let on_axis = get_gaussian_beam_intensity(&beam, &Vec3::new(0, 0, 0), None);
    assert_eq!(on_axis, 159_154_976_203);
    // Transversally the intensity falls off.
    let off_axis = get_gaussian_beam_intensity(&beam, &Vec3::new(2_000, 0, 0), None);
    assert!(off_axis < on_axis);
    assert!(off_axis > 0);
    // A coaxial mask fully zeroes the intensity inside its radius.
    let mask = CircularMask { radius: 3_000 };
    let masked = get_gaussian_beam_intensity(&beam, &Vec3::new(2_000, 0, 0), Some(&mask));
    assert_eq!(masked, 0);
    // Outside the mask radius the intensity is unaffected.
    let outside = get_gaussian_beam_intensity(&beam, &Vec3::new(4_000, 0, 0), Some(&mask));
    let unmasked = get_gaussian_beam_intensity(&beam, &Vec3::new(4_000, 0, 0), None);
    assert_eq!(outside, unmasked);
}

/// The micron-waist dipole-trap regime: a 70 um waist is inside the
/// verified domain, the on-axis waist intensity is exact, and the
/// transverse gradient points back towards the axis (saturating where
/// the true value exceeds the representable range).
#[test]
fn test_gaussian_micron_waist_regime() {
    let beam = GaussianBeam {
        intersection: Vec3::new(0, 0, 0),
        direction: Vec3::new(0, 0, UNIT),
        e_radius: 70,
        power: 100 * UNIT,
        rayleigh_range: 30_787,
    };
    let on_axis = get_gaussian_beam_intensity(&beam, &Vec3::new(0, 0, 0), None);
    assert_eq!(on_axis, 6_496_121_477_679_508);
    let frame = GaussianReferenceFrame {
        x_vector: Vec3::new(UNIT, 0, 0),
        y_vector: Vec3::new(0, UNIT, 0),
        ellipticity: 0,
    };
    let g0 = get_gaussian_beam_intensity_gradient(&beam, &Vec3::new(0, 0, 0), &frame);
    assert_eq!(g0, Vec3::new(0, 0, 0));
    let g1 = get_gaussian_beam_intensity_gradient(&beam, &Vec3::new(30, 0, 0), &frame);
    assert!(g1.x < 0);
    assert_eq!(g1.y, 0);
}

#[test]
fn test_gaussian_gradient_on_axis_vanishes() {
    let beam = GaussianBeam {
        intersection: Vec3::new(0, 0, 0),
        direction: Vec3::new(0, 0, UNIT),
        e_radius: 70_710,
        power: 100 * M,
        rayleigh_range: 14_765_485,
    };
    let frame = GaussianReferenceFrame {
        x_vector: Vec3::new(UNIT, 0, 0),
        y_vector: Vec3::new(0, UNIT, 0),
        ellipticity: 0,
    };
    let g0 = get_gaussian_beam_intensity_gradient(&beam, &Vec3::new(0, 0, 0), &frame);
    assert_eq!(g0, Vec3::new(0, 0, 0));
    // Transversally offset: the gradient points back towards the axis.
    let g1 = get_gaussian_beam_intensity_gradient(&beam, &Vec3::new(10_000, 0, 0), &frame);
    assert_eq!(g1.x, -24_961_525_275);
    assert_eq!(g1.y, 0);
}

#[test]
fn test_grid_nearest_cell_lookup() {
    let mut cells = Vec::new();
    for i in 0..8i64 {
        cells.push(Vec3::new(i, 0, 0));
    }
    let grid = PrecalculatedMagneticFieldGrid {
        extent_spatial: Vec3::new(2 * M, 2 * M, 2 * M),
        position: Vec3::new(0, 0, 0),
        extent_cells: Vec3::new(2, 2, 2),
        grid: cells,
    };
    // Flattened index: cz * (cy * ix + iy) + iz with z fastest.
    let p = Vec3::new(500_000, -500_000, 500_000);
    let idx = grid.position_to_grid_index(&p);
    assert_eq!(idx, 5);
    assert_eq!(grid.get_field(&p), Vec3::new(5, 0, 0));
    // Positions outside the extent clamp to the boundary cell.
    let far = Vec3::new(10 * M, 10 * M, 10 * M);
    assert_eq!(grid.position_to_grid_index(&far), 7);
}

#[test]
fn test_get_min_get_max() {
    let xs = vec![3i64, -7, 12, 0];
    assert_eq!(get_min(&xs), -7);
    assert_eq!(get_max(&xs), 12);
}
