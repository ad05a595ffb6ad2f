use starfield::simple_random::SimpleRng;
use starfield::utils::big_star_color_from;

#[test]
fn next_follows_the_recurrence() {
    let mut rng = SimpleRng::from_seed(1);
    assert_eq!(rng.next(), 1481765933);
    assert_eq!(rng.0, 6364136223846793006);
    assert_eq!(rng.next(), 3232861391);
    let mut zero = SimpleRng::from_seed(0);
    assert_eq!(zero.next(), 0);
    assert_eq!(zero.0, 1);
}

#[test]
fn ranges_are_offsets_of_the_next_draw() {
    assert_eq!(SimpleRng::from_seed(1).random_range_u32(10..20), 13);
    assert_eq!(SimpleRng::from_seed(1).random_u8(), 45);
    assert_eq!(SimpleRng::from_seed(1)._random_range_u8(5..9), 6);
    assert_eq!(SimpleRng::from_seed(1).random_range_f32(-1_000_000..1_000_000), -309_999);
    assert_eq!(SimpleRng::from_seed(0).random_range_f32(500_000..1_000_000), 500_000);
}

#[test]
fn ranges_hold_their_bounds() {
    let mut rng = SimpleRng::new();
    for _ in 0..1000 {
        let a = rng.random_range_u32(7..9);
        assert!(7 <= a && a < 9);
        let b = rng._random_range_u8(250..255);
        assert!(250 <= b && b < 255);
        let c = rng.random_range_f32(-3..4);
        assert!(-3 <= c && c < 4);
        let d = rng.random_range_f32(i32::MIN..i32::MAX);
        assert!(d < i32::MAX);
    }
}

#[test]
fn clock_seeded_generators_advance() {
    let mut rng = SimpleRng::new();
    let before = rng.0;
    rng.next();
    assert_eq!(rng.0, before.wrapping_mul(6364136223846793005).wrapping_add(1));
}

#[test]
fn colour_from_a_known_seed() {
    let mut rng = SimpleRng::from_seed(7);
    assert_eq!(big_star_color_from(&mut rng), 3309836);
    assert_eq!(rng.0, 12309061806813186179);
}
