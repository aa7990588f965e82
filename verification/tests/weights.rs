use pcg_sampling::distribution::Distribution;
use pcg_sampling::utils::Rand32;
use pcg_sampling::weight_index::WeightIndex;
use pcg_sampling::weight_index::WeightedError;

#[test]
fn empty_weights_rejected() {
    assert!(matches!(
        WeightIndex::<u32>::new(&[]),
        Err(WeightedError::NoItem)
    ));
}

#[test]
fn negative_weight_rejected() {
    assert!(matches!(
        WeightIndex::<i32>::new(&[-1]),
        Err(WeightedError::InvalidWeight)
    ));
    assert!(matches!(
        WeightIndex::<i32>::new(&[1, 2, -3]),
        Err(WeightedError::InvalidWeight)
    ));
}

#[test]
fn all_zero_weights_rejected() {
    assert!(matches!(
        WeightIndex::<u32>::new(&[0, 0, 0]),
        Err(WeightedError::AllWeightsZero)
    ));
}

#[test]
fn weighted_frequencies() {
    let d = WeightIndex::<u32>::new(&[1, 2, 3]).unwrap();
    let mut rng = Rand32::new(2718);
    let draws: u32 = 60_000;
    let mut counts = [0u32; 3];
    for _ in 0..draws {
        counts[d.sample(&mut rng)] += 1;
    }
    let expect = [1.0 / 6.0, 2.0 / 6.0, 3.0 / 6.0];
    for k in 0..3 {
        let rate = counts[k] as f64 / draws as f64;
        assert!((rate - expect[k]).abs() < 0.02, "counts {counts:?}");
    }
}

#[test]
fn zero_weight_items_never_sampled() {
    let d = WeightIndex::<u32>::new(&[0, 5, 0, 5]).unwrap();
    let mut rng = Rand32::new(12);
    for _ in 0..20_000 {
        let i = d.sample(&mut rng);
        assert!(i == 1 || i == 3);
    }
}

#[test]
fn update_weights_reweights_sampling() {
    let mut d = WeightIndex::<u32>::new(&[1, 2, 3]).unwrap();
    assert!(d.update_weights(&[(1, 10)]).is_ok());
    let mut rng = Rand32::new(314);
    let draws: u32 = 70_000;
    let mut counts = [0u32; 3];
    for _ in 0..draws {
        counts[d.sample(&mut rng)] += 1;
    }
    let expect = [1.0 / 14.0, 10.0 / 14.0, 3.0 / 14.0];
    for k in 0..3 {
        let rate = counts[k] as f64 / draws as f64;
        assert!((rate - expect[k]).abs() < 0.02, "counts {counts:?}");
    }
}

#[test]
fn update_weights_of_last_item() {
    let mut d = WeightIndex::<u32>::new(&[1, 1]).unwrap();
    assert!(d.update_weights(&[(1, 3)]).is_ok());
    let mut rng = Rand32::new(555);
    let draws: u32 = 40_000;
    let mut counts = [0u32; 2];
    for _ in 0..draws {
        counts[d.sample(&mut rng)] += 1;
    }
    let rate = counts[1] as f64 / draws as f64;
    assert!((rate - 0.75).abs() < 0.02, "counts {counts:?}");
}

#[test]
fn failing_update_changes_nothing() {
    let mut touched = WeightIndex::<u32>::new(&[1, 2, 3]).unwrap();
    let untouched = WeightIndex::<u32>::new(&[1, 2, 3]).unwrap();
    assert!(matches!(
        touched.update_weights(&[(1, 5), (1, 6)]),
        Err(WeightedError::InvalidWeight)
    ));
    assert!(matches!(
        touched.update_weights(&[(2, 5), (1, 6)]),
        Err(WeightedError::InvalidWeight)
    ));
    assert!(matches!(
        touched.update_weights(&[(0, 1), (3, 9)]),
        Err(WeightedError::TooMany)
    ));
    assert!(matches!(
        touched.update_weights(&[(0, 0), (1, 0), (2, 0)]),
        Err(WeightedError::AllWeightsZero)
    ));
    let mut r1 = Rand32::new(31);
    let mut r2 = Rand32::new(31);
    for _ in 0..200 {
        assert_eq!(touched.sample(&mut r1), untouched.sample(&mut r2));
    }
}

#[test]
fn negative_update_weight_rejected() {
    let mut d = WeightIndex::<i32>::new(&[1, 2, 3]).unwrap();
    assert!(matches!(
        d.update_weights(&[(1, -1)]),
        Err(WeightedError::InvalidWeight)
    ));
}

#[test]
fn empty_update_batch_is_ok() {
    let mut d = WeightIndex::<u32>::new(&[4, 4]).unwrap();
    assert!(d.update_weights(&[]).is_ok());
    let untouched = WeightIndex::<u32>::new(&[4, 4]).unwrap();
    let mut r1 = Rand32::new(1);
    let mut r2 = Rand32::new(1);
    for _ in 0..100 {
        assert_eq!(d.sample(&mut r1), untouched.sample(&mut r2));
    }
}

#[test]
fn usize_weights_supported() {
    let d = WeightIndex::<usize>::new(&[2, 2]).unwrap();
    let mut rng = Rand32::new(10);
    for _ in 0..1000 {
        assert!(d.sample(&mut rng) < 2);
    }
}
