use pcg_sampling::utils::Rand32;
use pcg_sampling::utils::Rand64;
use pcg_sampling::utils::Rng;

#[test]
fn same_seed_same_sequence() {
    let mut a = Rand32::new(42);
    let mut b = Rand32::new_inc(42, Rand32::DEFAULT_INC);
    for _ in 0..100 {
        assert_eq!(a.rand_u32(), b.rand_u32());
    }
}

#[test]
fn same_seed_same_sequence_64() {
    let mut a = Rand64::new(42);
    let mut b = Rand64::new_inc(42, Rand64::DEFAULT_INC);
    for _ in 0..100 {
        assert_eq!(a.rand_u64(), b.rand_u64());
    }
}

#[test]
fn distinct_increments_distinct_sequences() {
    let mut a = Rand32::new_inc(42, 1);
    let mut b = Rand32::new_inc(42, 2);
    let first: Vec<u32> = (0..16).map(|_| a.rand_u32()).collect();
    let second: Vec<u32> = (0..16).map(|_| b.rand_u32()).collect();
    assert_ne!(first, second);
}

#[test]
fn snapshot_restore_resumes() {
    let mut original = Rand32::new(7);
    for _ in 0..10 {
        original.rand_u32();
    }
    let snap = original.state();
    let mut restored = Rand32::from_state(snap);
    for _ in 0..50 {
        assert_eq!(original.rand_u32(), restored.rand_u32());
    }
}

#[test]
fn snapshot_restore_resumes_64() {
    let mut original = Rand64::new(1234567890123456789);
    for _ in 0..10 {
        original.rand_u64();
    }
    let snap = original.state();
    let mut restored = Rand64::from_state(snap);
    for _ in 0..50 {
        assert_eq!(original.rand_u64(), restored.rand_u64());
    }
}

#[test]
fn sign_bit_draw_matches_signed_draw() {
    let mut a = Rand32::new(77);
    let mut b = Rand32::new(77);
    for _ in 0..50 {
        assert_eq!(
            pcg_sampling::other::sign_bit_draw(&mut a),
            b.rand_i32() < 0
        );
    }
}

#[test]
fn signed_draw_reinterprets_unsigned() {
    let mut a = Rand32::new(5);
    let mut b = Rand32::new(5);
    for _ in 0..20 {
        assert_eq!(a.rand_i32(), b.rand_u32() as i32);
    }
}

#[test]
fn signed_draw_reinterprets_unsigned_64() {
    let mut a = Rand64::new(5);
    let mut b = Rand64::new(5);
    for _ in 0..20 {
        assert_eq!(a.rand_i64(), b.rand_u64() as i64);
    }
}
