use pcg_sampling::distribution::Distribution;
use pcg_sampling::distribution::Standard;
use pcg_sampling::other::Alphanumeric;
use pcg_sampling::slice::Slice;
use pcg_sampling::uniform::Uniform;
use pcg_sampling::utils::Rand32;

#[test]
fn map_applies_function_to_samples() {
    let plain = Uniform::<u32>::new(0, 1000).unwrap();
    let mapped = Uniform::<u32>::new(0, 1000).unwrap().map(|x| x * 2 + 1);
    let mut r1 = Rand32::new(1234);
    let mut r2 = Rand32::new(1234);
    for _ in 0..200 {
        assert_eq!(mapped.sample(&mut r2), plain.sample(&mut r1) * 2 + 1);
    }
}

#[test]
fn map_composes_left_to_right() {
    let plain = Uniform::<u32>::new(0, 100).unwrap();
    let mapped = Uniform::<u32>::new(0, 100).unwrap().map(|x| x + 1).map(|x| x * 3);
    let mut r1 = Rand32::new(9);
    let mut r2 = Rand32::new(9);
    for _ in 0..200 {
        assert_eq!(mapped.sample(&mut r2), (plain.sample(&mut r1) + 1) * 3);
    }
}

#[test]
fn sample_iter_pulls_fresh_samples() {
    let d = Uniform::<u32>::new(0, 50).unwrap();
    let mut it = d.sample_iter(Rand32::new(8));
    assert_eq!(it.size_hint(), (0, None));
    for _ in 0..100 {
        let v = it.next().unwrap();
        assert!(v < 50);
    }
}

#[test]
fn sample_iter_matches_repeated_sampling() {
    let d = Uniform::<u32>::new(0, 50).unwrap();
    let mut it = Uniform::<u32>::new(0, 50).unwrap().sample_iter(Rand32::new(5));
    let mut rng = Rand32::new(5);
    for _ in 0..100 {
        assert_eq!(it.next().unwrap(), d.sample(&mut rng));
    }
}

#[test]
fn alphanumeric_samples_ascii() {
    let mut rng = Rand32::new(11);
    let mut seen = [false; 256];
    for _ in 0..10_000 {
        let b = Alphanumeric.sample(&mut rng);
        assert!(b.is_ascii_alphanumeric(), "byte {b}");
        seen[b as usize] = true;
    }
    let distinct = seen.iter().filter(|s| **s).count();
    assert!(distinct > 40, "only {distinct} distinct bytes");
}

#[test]
fn standard_bool_is_roughly_balanced() {
    let mut rng = Rand32::new(600);
    let mut hits: u32 = 0;
    let draws: u32 = 100_000;
    for _ in 0..draws {
        if Standard.sample(&mut rng) {
            hits += 1;
        }
    }
    let rate = hits as f64 / draws as f64;
    assert!((rate - 0.5).abs() < 0.01, "rate was {rate}");
}

#[test]
fn standard_unit_sampling() {
    let mut rng = Rand32::new(1);
    let _: () = Standard.sample(&mut rng);
}

#[test]
fn reference_to_distribution_samples_like_it() {
    let d = Uniform::<u32>::new(4, 9).unwrap();
    let by_ref = &d;
    let mut r1 = Rand32::new(2);
    let mut r2 = Rand32::new(2);
    for _ in 0..100 {
        assert_eq!(by_ref.sample(&mut r1), d.sample(&mut r2));
    }
}

#[test]
fn slice_rejects_empty_and_samples_elements() {
    let empty: [u32; 0] = [];
    assert!(Slice::new(&empty).is_err());
    let items = [10u32, 20, 30];
    let d = Slice::new(&items).unwrap();
    let mut rng = Rand32::new(40);
    let mut counts = [0u32; 3];
    for _ in 0..30_000 {
        let v = *d.sample(&mut rng);
        let pos = items.iter().position(|x| *x == v).expect("sample not from the slice");
        counts[pos] += 1;
    }
    for c in counts {
        assert!(c > 8_000, "counts {counts:?}");
    }
}
