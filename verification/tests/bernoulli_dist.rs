use pcg_sampling::bernoulli::Bernoulli;
use pcg_sampling::bernoulli::BernoulliError;
use pcg_sampling::distribution::Distribution;
use pcg_sampling::utils::Rand32;

#[test]
fn invalid_ratios_rejected() {
    assert!(matches!(
        Bernoulli::from_ratio(5, 3),
        Err(BernoulliError::InvalidProbability)
    ));
    assert!(matches!(
        Bernoulli::from_ratio(1, 0),
        Err(BernoulliError::InvalidProbability)
    ));
    assert!(matches!(
        Bernoulli::from_ratio(0, 0),
        Err(BernoulliError::InvalidProbability)
    ));
}

#[test]
fn zero_probability_always_false() {
    let d = Bernoulli::from_fixed(0);
    let mut rng = Rand32::new(1);
    for _ in 0..10_000 {
        assert!(!d.sample(&mut rng));
    }
    let z = Bernoulli::from_ratio(0, 5).unwrap();
    for _ in 0..10_000 {
        assert!(!z.sample(&mut rng));
    }
}

#[test]
fn unit_probability_always_true() {
    let d = Bernoulli::from_ratio(3, 3).unwrap();
    let mut rng = Rand32::new(2);
    for _ in 0..10_000 {
        assert!(d.sample(&mut rng));
    }
    let s = Bernoulli::from_fixed(u64::MAX);
    for _ in 0..10_000 {
        assert!(s.sample(&mut rng));
    }
}

#[test]
fn ratio_two_thirds_empirical_rate() {
    let d = Bernoulli::from_ratio(2, 3).unwrap();
    let mut rng = Rand32::new(2024);
    let mut hits: u32 = 0;
    let draws: u32 = 100_000;
    for _ in 0..draws {
        if d.sample(&mut rng) {
            hits += 1;
        }
    }
    let rate = hits as f64 / draws as f64;
    assert!((rate - 2.0 / 3.0).abs() < 0.01, "rate was {rate}");
}
