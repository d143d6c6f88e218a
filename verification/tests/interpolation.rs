// Each interpolator family member exercised end to end.  Fractional inputs
// are carried at a fixed-point scale of 10 (one digit after the point),
// since the library works on scaled integers.

use interpolation::Interpolator;
use interpolation::LinearInterpolator;
use interpolation::NearestNeighborInterpolator;
use interpolation::PiecewiseInterpolator;
use interpolation::StepInterpolator;

#[test]
fn step() {
    let si = StepInterpolator::new((10, 20), (100, 200)).unwrap();
    assert_eq!(si.eval(9), 100);
    assert_eq!(si.eval(10), 100);
    assert_eq!(si.eval(11), 200);
    assert_eq!(si.eval(21), 200);

    assert_eq!(si.exceeds_domain(1), false);
    assert_eq!(si.exceeds_domain(15), false);
    assert_eq!(si.exceeds_domain(21), true);
}

#[test]
fn nearest_neighbor() {
    let nni = NearestNeighborInterpolator::new((100, 200), (1000, 2000)).unwrap();
    assert_eq!(nni.eval(90), 1000);
    assert_eq!(nni.eval(100), 1000);
    assert_eq!(nni.eval(140), 1000);
    assert_eq!(nni.eval(150), 1000);
    assert_eq!(nni.eval(151), 2000);
    assert_eq!(nni.eval(160), 2000);
    assert_eq!(nni.eval(210), 2000);

    assert_eq!(nni.exceeds_domain(10), false);
    assert_eq!(nni.exceeds_domain(150), false);
    assert_eq!(nni.exceeds_domain(210), true);

    let nni = NearestNeighborInterpolator::new((100, 200), (-1000, -2000)).unwrap();
    assert_eq!(nni.eval(90), -1000);
    assert_eq!(nni.eval(100), -1000);
    assert_eq!(nni.eval(140), -1000);
    assert_eq!(nni.eval(160), -2000);
}

#[test]
fn linear() {
    let li = LinearInterpolator::new((100, 200), (1000, 2000)).unwrap();
    assert_eq!(li.eval(90), 1000);
    assert_eq!(li.eval(100), 1000);
    assert_eq!(li.eval(125), 1250);
    assert_eq!(li.eval(150), 1500);
    assert_eq!(li.eval(200), 2000);
    assert_eq!(li.eval(210), 2000);

    assert_eq!(li.exceeds_domain(10), false);
    assert_eq!(li.exceeds_domain(150), false);
    assert_eq!(li.exceeds_domain(210), true);

    let li = LinearInterpolator::new((100, 200), (-1000, -2000)).unwrap();
    assert_eq!(li.eval(90), -1000);
    assert_eq!(li.eval(100), -1000);
    assert_eq!(li.eval(125), -1250);
    assert_eq!(li.eval(150), -1500);
    assert_eq!(li.eval(200), -2000);
    assert_eq!(li.eval(210), -2000);
}

#[test]
#[should_panic]
fn piecewise_panic_nointerps() {
    PiecewiseInterpolator::new(vec![]).unwrap();
}

#[test]
#[should_panic]
fn piecewise_panic_nonclosed() {
    PiecewiseInterpolator::new(vec![
        Interpolator::Linear(LinearInterpolator::new((10, 20), (30, 40)).unwrap()),
        Interpolator::Linear(LinearInterpolator::new((21, 30), (40, 50)).unwrap()),
    ])
    .unwrap();
}

#[test]
fn piecewise() {
    let pi = PiecewiseInterpolator::new(vec![
        Interpolator::Linear(LinearInterpolator::new((10, 20), (30, 40)).unwrap()),
        Interpolator::NearestNeighbor(
            NearestNeighborInterpolator::new((20, 30), (40, 50)).unwrap(),
        ),
    ])
    .unwrap();

    assert_eq!(pi.exceeds_domain(1), false);
    assert_eq!(pi.exceeds_domain(20), false);
    assert_eq!(pi.exceeds_domain(29), false);
    assert_eq!(pi.exceeds_domain(30), true);
    assert_eq!(pi.exceeds_domain(31), true);

    assert_eq!(pi.eval(0), 30);
    assert_eq!(pi.eval(10), 30);
    assert_eq!(pi.eval(15), 35);
    assert_eq!(pi.eval(20), 40);
    assert_eq!(pi.eval(23), 40);
    assert_eq!(pi.eval(25), 40);
    assert_eq!(pi.eval(26), 50);
    assert_eq!(pi.eval(30), 50);
    assert_eq!(pi.eval(35), 50);
}
