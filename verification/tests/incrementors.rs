use ml_math::MeanIncrementor;
use ml_math::Ratio;
use ml_math::VarianceIncrementor;

#[test]
fn test_mean_incrementor() {
    let mut mean_incr = MeanIncrementor::new();

    mean_incr.add(Ratio::from_int(0));
    assert!(Ratio::from_int(0).eq_frac(&mean_incr.mean()));

    mean_incr.add(Ratio::from_int(1));
    assert!(Ratio::new(1, 2).eq_frac(&mean_incr.mean()));
}

#[test]
fn variance_incrementor() {
    let mut variance_incr = VarianceIncrementor::new();

    variance_incr.add(Ratio::from_int(0));
    variance_incr.add(Ratio::from_int(1));
    assert!(Ratio::new(1, 2).eq_frac(&variance_incr.variance()));

    variance_incr.add(Ratio::from_int(2));
    assert!(Ratio::from_int(1).eq_frac(&variance_incr.variance()));
}

#[test]
fn scenario_two_values() {
    let mut variance_incr = VarianceIncrementor::new();
    variance_incr.add(Ratio::from_int(0));
    variance_incr.add(Ratio::from_int(1));
    assert!(Ratio::new(1, 2).eq_frac(&variance_incr.mean()));
    assert!(Ratio::new(1, 2).eq_frac(&variance_incr.variance()));
}

#[test]
fn scenario_three_values() {
    let mut variance_incr = VarianceIncrementor::new();
    variance_incr.add(Ratio::from_int(0));
    variance_incr.add(Ratio::from_int(1));
    variance_incr.add(Ratio::from_int(2));
    assert!(Ratio::from_int(1).eq_frac(&variance_incr.mean()));
    assert!(Ratio::from_int(1).eq_frac(&variance_incr.variance()));
    assert_eq!(3, variance_incr.count());
}

#[test]
fn scenario_zero_additions() {
    let mean_incr = MeanIncrementor::new();
    assert_eq!(0, mean_incr.count());
    assert!(Ratio::from_int(0).eq_frac(&mean_incr.mean()));

    let variance_incr = VarianceIncrementor::new();
    assert_eq!(0, variance_incr.count());
    assert!(Ratio::from_int(0).eq_frac(&variance_incr.mean()));
    assert!(Ratio::from_int(0).eq_frac(&variance_incr.variance()));
}

#[test]
fn scenario_single_value() {
    let mut variance_incr = VarianceIncrementor::new();
    variance_incr.add(Ratio::new(-7, 3));
    assert!(Ratio::from_int(0).eq_frac(&variance_incr.variance()));
    assert!(Ratio::new(-7, 3).eq_frac(&variance_incr.mean()));
    assert_eq!(1, variance_incr.count());

    let mut negative = VarianceIncrementor::new();
    negative.add(Ratio::from_int(-5));
    assert!(Ratio::from_int(0).eq_frac(&negative.variance()));
    assert!(Ratio::from_int(-5).eq_frac(&negative.mean()));
    assert_eq!(1, negative.count());
}

#[test]
fn count_equals_number_of_adds() {
    let mut mean_incr = MeanIncrementor::new();
    let mut variance_incr = VarianceIncrementor::new();
    assert_eq!(0, mean_incr.count());
    assert_eq!(0, variance_incr.count());
    let mut i: i64 = 0;
    while i < 5 {
        mean_incr.add(Ratio::from_int(i));
        variance_incr.add(Ratio::from_int(i));
        i = i + 1;
    }
    assert_eq!(5, mean_incr.count());
    assert_eq!(5, variance_incr.count());
}

#[test]
fn mean_equals_batch_average() {
    // 3 - 2 + 7 + 1/2 = 17/2, over four values: 17/8.
    let mut mean_incr = MeanIncrementor::new();
    mean_incr.add(Ratio::from_int(3));
    mean_incr.add(Ratio::from_int(-2));
    mean_incr.add(Ratio::from_int(7));
    mean_incr.add(Ratio::new(1, 2));
    assert_eq!(4, mean_incr.count());
    assert!(Ratio::new(17, 8).eq_frac(&mean_incr.mean()));
}

#[test]
fn variance_equals_batch_formula() {
    // For 1, 2, 3, 4: sum 10, sum of squares 30,
    // (4*30 - 10*10) / (4*3) = 20/12 = 5/3.
    let mut variance_incr = VarianceIncrementor::new();
    variance_incr.add(Ratio::from_int(1));
    variance_incr.add(Ratio::from_int(2));
    variance_incr.add(Ratio::from_int(3));
    variance_incr.add(Ratio::from_int(4));
    assert!(Ratio::new(5, 2).eq_frac(&variance_incr.mean()));
    assert!(Ratio::new(5, 3).eq_frac(&variance_incr.variance()));
}

#[test]
fn permutation_gives_same_statistics() {
    let mut forward = VarianceIncrementor::new();
    forward.add(Ratio::from_int(1));
    forward.add(Ratio::from_int(2));
    forward.add(Ratio::from_int(3));
    forward.add(Ratio::from_int(4));

    let mut shuffled = VarianceIncrementor::new();
    shuffled.add(Ratio::from_int(4));
    shuffled.add(Ratio::from_int(1));
    shuffled.add(Ratio::from_int(3));
    shuffled.add(Ratio::from_int(2));

    assert!(forward.mean().eq_frac(&shuffled.mean()));
    assert!(forward.variance().eq_frac(&shuffled.variance()));
    assert_eq!(forward.count(), shuffled.count());
}

#[test]
fn fractional_values() {
    // 1/2 then 1/3: mean 5/12, variance (1/3 - 1/2)^2 / 2 = 1/72.
    let mut variance_incr = VarianceIncrementor::new();
    variance_incr.add(Ratio::new(1, 2));
    variance_incr.add(Ratio::new(1, 3));
    assert!(Ratio::new(5, 12).eq_frac(&variance_incr.mean()));
    assert!(Ratio::new(1, 72).eq_frac(&variance_incr.variance()));
}

#[test]
fn ratio_equality_is_by_value() {
    assert!(Ratio::new(2, 4).eq_frac(&Ratio::new(1, 2)));
    assert!(!Ratio::new(1, 3).eq_frac(&Ratio::new(1, 2)));
    assert!(Ratio::new(-3, 6).eq_frac(&Ratio::new(-1, 2)));
}
