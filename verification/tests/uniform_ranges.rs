use pcg_sampling::distribution::Distribution;
use pcg_sampling::uniform::char_to_comp_u32;
use pcg_sampling::uniform::Error;
use pcg_sampling::uniform::SampleRange;
use pcg_sampling::uniform::Uniform;
use pcg_sampling::uniform::UniformInt;
use pcg_sampling::uniform::UniformSampler;
use pcg_sampling::utils::Rand32;

#[test]
fn empty_ranges_rejected() {
    assert!(matches!(Uniform::<u32>::new(5, 5), Err(Error::EmptyRange)));
    assert!(matches!(Uniform::<u32>::new(9, 3), Err(Error::EmptyRange)));
    assert!(matches!(Uniform::<i32>::new(-2, -2), Err(Error::EmptyRange)));
    assert!(matches!(
        Uniform::<i32>::new_inclusive(3, 2),
        Err(Error::EmptyRange)
    ));
    assert!(matches!(Uniform::<usize>::new(7, 7), Err(Error::EmptyRange)));
}

#[test]
fn half_open_draws_stay_in_range() {
    let d = Uniform::<u32>::new(10, 500).unwrap();
    let mut rng = Rand32::new(99);
    for _ in 0..100_000 {
        let x = d.sample(&mut rng);
        assert!(10 <= x && x < 500);
    }
}

#[test]
fn signed_half_open_draws_stay_in_range() {
    let d = Uniform::<i32>::new(-50, 50).unwrap();
    let mut rng = Rand32::new(77);
    for _ in 0..100_000 {
        let x = d.sample(&mut rng);
        assert!(-50 <= x && x < 50);
    }
}

#[test]
fn usize_half_open_draws_stay_in_range() {
    let d = Uniform::<usize>::new(3, 11).unwrap();
    let mut rng = Rand32::new(15);
    for _ in 0..50_000 {
        let x = d.sample(&mut rng);
        assert!(3 <= x && x < 11);
    }
}

#[test]
fn inclusive_degenerate_range_samples_its_bound() {
    let d = Uniform::<u32>::new_inclusive(5, 5).unwrap();
    let mut rng = Rand32::new(1);
    for _ in 0..1000 {
        assert_eq!(d.sample(&mut rng), 5);
    }
}

#[test]
fn whole_domain_inclusive_range_works() {
    let d = Uniform::<u32>::new_inclusive(0, u32::MAX).unwrap();
    let mut rng = Rand32::new(3);
    for _ in 0..1000 {
        d.sample(&mut rng);
    }
    let e = Uniform::<i32>::new_inclusive(i32::MIN, i32::MAX).unwrap();
    for _ in 0..1000 {
        e.sample(&mut rng);
    }
}

#[test]
fn sample_single_forms() {
    let mut rng = Rand32::new(21);
    assert!(matches!(
        UniformInt::<u32>::sample_single(3, 3, &mut rng),
        Err(Error::EmptyRange)
    ));
    for _ in 0..1000 {
        let x = UniformInt::<u32>::sample_single(10, 20, &mut rng).unwrap();
        assert!(10 <= x && x < 20);
        let y = UniformInt::<u32>::sample_single_inclusive(5, 5, &mut rng).unwrap();
        assert_eq!(y, 5);
    }
}

#[test]
fn char_compression_collapses_the_surrogate_gap() {
    assert_eq!(char_to_comp_u32('a'), 97);
    assert_eq!(char_to_comp_u32('\u{D7FF}'), 0xD7FF);
    assert_eq!(char_to_comp_u32('\u{E000}'), 0xD800);
    assert_eq!(char_to_comp_u32(char::MAX), 0x10FFFF - 0x800);
}

#[test]
fn char_draws_stay_in_range() {
    let d = Uniform::<char>::new_inclusive('a', 'f').unwrap();
    let mut rng = Rand32::new(8);
    for _ in 0..10_000 {
        let c = d.sample(&mut rng);
        assert!('a' <= c && c <= 'f');
    }
    assert!(matches!(Uniform::<char>::new('z', 'a'), Err(Error::EmptyRange)));
}

#[test]
fn char_draws_skip_surrogates() {
    let d = Uniform::<char>::new_inclusive('\u{D000}', '\u{E200}').unwrap();
    let mut rng = Rand32::new(44);
    for _ in 0..20_000 {
        let c = d.sample(&mut rng);
        let u = c as u32;
        assert!(0xD000 <= u && u <= 0xE200);
        assert!(!(0xD800 <= u && u < 0xE000));
    }
}

#[test]
fn ranges_sample_directly() {
    let mut rng = Rand32::new(50);
    assert!((5u32..5).is_empty());
    assert!(!(5u32..6).is_empty());
    assert!(!(5u32..=5).is_empty());
    assert!((3i32..=2).is_empty());
    for _ in 0..1000 {
        let x = (10u32..20).sample_single(&mut rng).unwrap();
        assert!(10 <= x && x < 20);
        let y = (-3i32..=3).sample_single(&mut rng).unwrap();
        assert!(-3 <= y && y <= 3);
        let z = (1usize..4).sample_single(&mut rng).unwrap();
        assert!(1 <= z && z < 4);
    }
    assert!(matches!(
        (7usize..7).sample_single(&mut rng),
        Err(Error::EmptyRange)
    ));
}
