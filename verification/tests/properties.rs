// Concrete checks of the library's stated guarantees: interval validation,
// saturation at the domain edges, the exact midpoint values of the
// continuous curves, piecewise delegation, and every error variant.

use interpolation::ClosedInterval;
use interpolation::InterpolationError;
use interpolation::Interpolator;
use interpolation::LinearInterpolator;
use interpolation::NearestNeighborInterpolator;
use interpolation::PiecewiseInterpolator;
use interpolation::SigmoidInterpolator;
use interpolation::StepInterpolator;

#[test]
fn interval_bounds_and_length() {
    let iv = ClosedInterval::new((10, 25));
    assert!(iv.check_bound().is_ok());
    assert_eq!(iv.length(), 15);
    assert!(iv.contains(10));
    assert!(iv.contains(25));
    assert!(iv.contains(17));
    assert!(!iv.contains(9));
    assert!(!iv.contains(26));

    let degenerate = ClosedInterval::new((5, 5));
    assert_eq!(degenerate.check_bound(), Err(InterpolationError::InvalidInterval));
    let inverted = ClosedInterval::new((7, 3));
    assert_eq!(inverted.check_bound(), Err(InterpolationError::InvalidInterval));
}

#[test]
fn invalid_domains_are_rejected_by_every_leaf() {
    assert_eq!(
        StepInterpolator::new((5, 5), (0, 1)).unwrap_err(),
        InterpolationError::InvalidInterval
    );
    assert_eq!(
        NearestNeighborInterpolator::new((9, 2), (0, 1)).unwrap_err(),
        InterpolationError::InvalidInterval
    );
    assert_eq!(
        LinearInterpolator::new((3, 3), (10, 20)).unwrap_err(),
        InterpolationError::InvalidInterval
    );
    assert_eq!(
        SigmoidInterpolator::new((8, -8), (10, 20)).unwrap_err(),
        InterpolationError::InvalidInterval
    );
    // Inverted and degenerate ranges are fine.
    assert!(StepInterpolator::new((0, 1), (20, 10)).is_ok());
    assert!(LinearInterpolator::new((0, 1), (7, 7)).is_ok());
}

#[test]
fn saturation_below_and_above() {
    let li = LinearInterpolator::new((0, 100), (-50, 50)).unwrap();
    let at_low = li.eval(0);
    assert_eq!(li.eval(-1), at_low);
    assert_eq!(li.eval(-1000), at_low);
    let at_high = li.eval(100);
    assert_eq!(li.eval(101), at_high);
    assert_eq!(li.eval(100000), at_high);

    let si = SigmoidInterpolator::new((0, 100), (-50, 50)).unwrap();
    assert_eq!(si.eval(-3), si.eval(0));
    assert_eq!(si.eval(103), si.eval(100));
}

#[test]
fn exceeds_domain_is_upper_bound_only() {
    let si = StepInterpolator::new((10, 20), (1, 2)).unwrap();
    // No symmetric check below the domain: inputs far below do not exceed.
    assert!(!si.exceeds_domain(-100));
    assert!(!si.exceeds_domain(19));
    assert!(si.exceeds_domain(20));
    assert!(si.exceeds_domain(21));
    // Once exceeded, pushing further does not change the value.
    assert_eq!(si.eval(20), si.eval(20 + 17));
}

#[test]
fn linear_midpoint_is_mean() {
    let li = LinearInterpolator::new((10, 20), (100, 200)).unwrap();
    assert_eq!(li.eval(15), 150);
    let inv = LinearInterpolator::new((10, 20), (200, 100)).unwrap();
    assert_eq!(inv.eval(15), 150);
}

#[test]
fn linear_truncates_toward_zero() {
    let li = LinearInterpolator::new((0, 3), (0, 10)).unwrap();
    assert_eq!(li.eval(1), 3);
    assert_eq!(li.eval(2), 6);
    let inv = LinearInterpolator::new((0, 3), (0, -10)).unwrap();
    assert_eq!(inv.eval(1), -3);
    assert_eq!(inv.eval(2), -6);
}

#[test]
fn sigmoid_midpoint_is_mean() {
    let si = SigmoidInterpolator::new((10, 18), (100, 200)).unwrap();
    assert_eq!(si.eval(14), 150);
    let inv = SigmoidInterpolator::new((10, 18), (-100, -200)).unwrap();
    assert_eq!(inv.eval(14), -150);
}

#[test]
fn sigmoid_curve_values() {
    // One exact value per knot region of the fixed-point logistic curve.
    let si = SigmoidInterpolator::new((10, 18), (100, 200)).unwrap();
    assert_eq!(si.eval(9), 100);
    assert_eq!(si.eval(10), 100);
    assert_eq!(si.eval(11), 104);
    assert_eq!(si.eval(12), 111);
    assert_eq!(si.eval(15), 173);
    assert_eq!(si.eval(18), 200);
    assert_eq!(si.eval(19), 200);
}

#[test]
fn sigmoid_is_monotone() {
    let si = SigmoidInterpolator::new((0, 1000), (0, 5000)).unwrap();
    let mut prev = si.eval(-1);
    let mut x: i64 = 0;
    while x <= 1001 {
        let v = si.eval(x);
        assert!(v >= prev);
        prev = v;
        x += 1;
    }

    let inv = SigmoidInterpolator::new((0, 1000), (5000, 0)).unwrap();
    let mut prev = inv.eval(-1);
    let mut x: i64 = 0;
    while x <= 1001 {
        let v = inv.eval(x);
        assert!(v <= prev);
        prev = v;
        x += 1;
    }
}

#[test]
fn piecewise_empty_fails() {
    assert_eq!(
        PiecewiseInterpolator::new(vec![]).unwrap_err(),
        InterpolationError::NoInterpolators
    );
}

#[test]
fn piecewise_gap_and_overlap_fail() {
    let gap = PiecewiseInterpolator::new(vec![
        Interpolator::Step(StepInterpolator::new((0, 10), (0, 1)).unwrap()),
        Interpolator::Step(StepInterpolator::new((11, 20), (1, 2)).unwrap()),
    ]);
    assert_eq!(gap.unwrap_err(), InterpolationError::DiscontinuousDomain);

    let overlap = PiecewiseInterpolator::new(vec![
        Interpolator::Step(StepInterpolator::new((0, 10), (0, 1)).unwrap()),
        Interpolator::Step(StepInterpolator::new((9, 20), (1, 2)).unwrap()),
    ]);
    assert_eq!(overlap.unwrap_err(), InterpolationError::DiscontinuousDomain);
}

#[test]
fn piecewise_matches_standalone_child() {
    let li = LinearInterpolator::new((10, 20), (30, 40)).unwrap();
    let nni = NearestNeighborInterpolator::new((20, 30), (40, 50)).unwrap();
    let standalone_li = LinearInterpolator::new((10, 20), (30, 40)).unwrap();
    let standalone_nni = NearestNeighborInterpolator::new((20, 30), (40, 50)).unwrap();
    let pi = PiecewiseInterpolator::new(vec![
        Interpolator::Linear(li),
        Interpolator::NearestNeighbor(nni),
    ])
    .unwrap();
    for x in 11..20 {
        assert_eq!(pi.eval(x), standalone_li.eval(x));
    }
    for x in 21..30 {
        assert_eq!(pi.eval(x), standalone_nni.eval(x));
    }
}

#[test]
fn piecewise_nests() {
    let inner = PiecewiseInterpolator::new(vec![
        Interpolator::Linear(LinearInterpolator::new((0, 10), (0, 100)).unwrap()),
        Interpolator::Linear(LinearInterpolator::new((10, 30), (100, 300)).unwrap()),
    ])
    .unwrap();
    let outer = PiecewiseInterpolator::new(vec![
        Interpolator::Piecewise(inner),
        Interpolator::Step(StepInterpolator::new((30, 40), (300, 500)).unwrap()),
    ])
    .unwrap();
    let d = outer.get_domain();
    assert_eq!(d.low, 0);
    assert_eq!(d.high, 40);
    assert_eq!(outer.eval(5), 50);
    assert_eq!(outer.eval(20), 200);
    assert_eq!(outer.eval(35), 500);
    assert!(outer.exceeds_domain(40));
    assert!(!outer.exceeds_domain(39));
}

#[test]
fn uniform_dispatch_through_the_family() {
    let all: Vec<Interpolator> = vec![
        Interpolator::Step(StepInterpolator::new((0, 10), (5, 6)).unwrap()),
        Interpolator::NearestNeighbor(
            NearestNeighborInterpolator::new((10, 20), (6, 7)).unwrap(),
        ),
        Interpolator::Linear(LinearInterpolator::new((20, 30), (7, 17)).unwrap()),
        Interpolator::Sigmoid(SigmoidInterpolator::new((30, 40), (17, 27)).unwrap()),
    ];
    for it in all.iter() {
        let d = it.get_domain();
        assert!(d.low < d.high);
        assert_eq!(it.eval(d.low - 1), it.eval(d.low));
        assert_eq!(it.eval(d.high + 5), it.eval(d.high));
        assert!(it.exceeds_domain(d.high));
        assert!(!it.exceeds_domain(d.high - 1));
    }
    let pi = PiecewiseInterpolator::new(all).unwrap();
    assert_eq!(pi.get_domain().low, 0);
    assert_eq!(pi.get_domain().high, 40);
}

#[test]
fn nearest_neighbor_odd_domain_midpoint() {
    // Length 5: the midpoint truncates to low + 2.
    let nni = NearestNeighborInterpolator::new((0, 5), (1, 2)).unwrap();
    assert_eq!(nni.eval(2), 1);
    assert_eq!(nni.eval(3), 2);
}
