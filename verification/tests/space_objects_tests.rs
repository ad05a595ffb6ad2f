use starfield::space_objects::{sub_clamped, BigStar, Star, RED};
use starfield::utils::project;

#[test]
fn test_star_center_on_screen() {
    let width = 800;
    let height = 600;
    let star = BigStar { x: 0, y: 0, z: 1_000_000, hit: false, was_missed: false };
    assert_eq!(star.is_off_screen(width, height), false);
}

#[test]
fn test_star_far_left_off_screen() {
    let width = 800;
    let height = 600;
    let star = BigStar { x: -20_000_000, y: 0, z: 10_000_000, hit: false, was_missed: false };
    assert_eq!(star.is_off_screen(width, height), true);
}

#[test]
fn test_star_far_right_off_screen() {
    let width = 800;
    let height = 600;
    let star = BigStar { x: 10_000_000, y: 0, z: 1_000_000, hit: false, was_missed: false };
    assert_eq!(star.is_off_screen(width, height), true);
}

#[test]
fn test_star_below_screen() {
    let width = 800;
    let height = 600;
    let star = BigStar { x: 0, y: 10_000_000, z: 1_000_000, hit: false, was_missed: false };
    assert_eq!(star.is_off_screen(width, height), true);
}

#[test]
fn off_screen_edges_are_on_screen() {
    // x == z projects to the right edge itself, which still counts as on screen.
    let edge = BigStar { x: 1_000_000, y: -1_000_000, z: 1_000_000, hit: false, was_missed: false };
    assert!(!edge.is_off_screen(800, 600));
    let past = BigStar { x: 1_000_001, y: 0, z: 1_000_000, hit: false, was_missed: false };
    assert!(past.is_off_screen(800, 600));
    let above = BigStar { x: 0, y: -1_000_001, z: 1_000_000, hit: false, was_missed: false };
    assert!(above.is_off_screen(800, 600));
    // With no extent along an axis nothing can leave it.
    assert!(!past.is_off_screen(0, 600));
}

#[test]
fn projection_of_known_points() {
    assert_eq!(project(0, 0, 1_000_000, 800, 600), (400, 300));
    assert_eq!(project(500_000, -250_000, 1_000_000, 800, 600), (600, 225));
    assert_eq!(project(1_000_000, 1_000_000, 2_000_000, 800, 600), (600, 450));
    // 400 * (1 + 1/3) = 533.33, rounded toward zero
    assert_eq!(project(1_000_000, 0, 3_000_000, 800, 600), (533, 300));
    // -0.5 rounds toward zero, not down
    assert_eq!(project(-1_001_250, 0, 1_000_000, 800, 600), (0, 300));
    assert_eq!(project(-3_000_000, 0, 1_000_000, 800, 600), (-800, 300));
}

#[test]
fn near_test_is_exact_at_the_threshold() {
    let star = BigStar { x: 0, y: 0, z: 1_000_000, hit: false, was_missed: false };
    // projects to (400, 300)
    assert!(star.is_near(800, 600, 400, 300, 12));
    assert!(star.is_near(800, 600, 403, 301, 12)); // 9 + 1 = 10
    assert!(!star.is_near(800, 600, 403, 302, 12)); // 9 + 4 = 13
    assert!(star.is_near(800, 600, 418, 324, 901)); // 324 + 576 = 900
    assert!(!star.is_near(800, 600, 418, 324, 900));
    assert!(!star.is_near(800, 600, 400, 300, 0));
    // The projected point is not rounded: 400 * 1.00125 = 400.5
    let half = BigStar { x: 1_250, y: 0, z: 1_000_000, hit: false, was_missed: false };
    assert!(half.is_near(800, 600, 400, 300, 1)); // 0.25
    assert!(half.is_near(800, 600, 401, 300, 1)); // 0.25
    assert!(!half.is_near(800, 600, 402, 300, 1)); // 2.25
}

#[test]
fn approach_moves_nearer_and_reports_leaving() {
    let mut star = BigStar { x: 0, y: 0, z: 101_000, hit: false, was_missed: false };
    assert!(!star.approach(500, 800, 600));
    assert_eq!(star, BigStar { x: 0, y: 0, z: 100_500, hit: false, was_missed: false });
    assert!(star.approach(500, 800, 600));
    assert_eq!(star.z, 100_000);
    let mut drifting = BigStar { x: 2_000_000, y: 0, z: 2_001_000, hit: false, was_missed: false };
    assert!(!drifting.approach(1_000, 800, 600));
    assert!(drifting.approach(1, 800, 600));
}

#[test]
fn escape_counts_a_miss_once() {
    let mut star = BigStar { x: 5, y: 6, z: 90_000, hit: false, was_missed: false };
    assert!(star.is_gone(800, 600));
    assert!(star.escape(-7, 8, 250_000));
    assert_eq!(star, BigStar { x: -7, y: 8, z: 2_750_000, hit: false, was_missed: false });

    let mut counted = BigStar { x: 5, y: 6, z: 90_000, hit: false, was_missed: true };
    assert!(!counted.escape(1, 2, 0));
    assert_eq!(counted, BigStar { x: 1, y: 2, z: 2_500_000, hit: false, was_missed: false });

    let mut hit = BigStar { x: 5, y: 6, z: 90_000, hit: true, was_missed: false };
    assert!(!hit.escape(1, 2, 999_999));
    assert_eq!(hit, BigStar { x: 1, y: 2, z: 3_499_999, hit: false, was_missed: false });
}

#[test]
fn spawn_places_a_fresh_star() {
    assert_eq!(
        BigStar::spawn(-1_500_000, 1_499_999, 0),
        BigStar { x: -1_500_000, y: 1_499_999, z: 2_500_000, hit: false, was_missed: false }
    );
}

#[test]
fn sub_clamped_saturates() {
    assert_eq!(sub_clamped(10, 3), 7);
    assert_eq!(sub_clamped(i32::MIN, 1), i32::MIN);
    assert_eq!(sub_clamped(i32::MAX, -1), i32::MAX);
}

#[test]
fn big_star_draws_outline_and_body() {
    let (w, h) = (800usize, 600usize);
    let mut buf = vec![0u32; w * h];
    let star = BigStar { x: 0, y: 0, z: 1_000_000, hit: false, was_missed: false };
    star.draw(&mut buf, w, h, 400, 300, 0x123456);
    let at = |x: usize, y: usize| buf[y * w + x];
    for d in 0..9 {
        assert_eq!(at(396 + d, 296), RED);
        assert_eq!(at(396 + d, 304), RED);
        assert_eq!(at(396, 296 + d), RED);
        assert_eq!(at(404, 296 + d), RED);
    }
    for y in 299..=301 {
        for x in 399..=401 {
            assert_eq!(at(x, y), 0x123456);
        }
    }
    assert_eq!(at(398, 300), 0);
    assert_eq!(at(403, 303), 0);
    assert_eq!(at(405, 300), 0);
    assert_eq!(buf.iter().filter(|&&c| c == RED).count(), 32);
    assert_eq!(buf.iter().filter(|&&c| c == 0x123456).count(), 9);
}

#[test]
fn big_star_far_from_ship_or_hit_has_no_outline() {
    let (w, h) = (800usize, 600usize);
    let star = BigStar { x: 0, y: 0, z: 1_000_000, hit: false, was_missed: false };
    let mut buf = vec![0u32; w * h];
    star.draw(&mut buf, w, h, 430, 300, 0x00FF00);
    assert_eq!(buf.iter().filter(|&&c| c == RED).count(), 0);
    assert_eq!(buf.iter().filter(|&&c| c == 0x00FF00).count(), 9);

    let hit = BigStar { hit: true, ..star };
    let mut buf = vec![0u32; w * h];
    hit.draw(&mut buf, w, h, 400, 300, 0x00FF00);
    assert_eq!(buf.iter().filter(|&&c| c == RED).count(), 0);
}

#[test]
fn big_star_at_the_border_has_no_body() {
    let (w, h) = (800usize, 600usize);
    // projects to column 0
    let star = BigStar { x: -1_000_000, y: 0, z: 1_000_000, hit: false, was_missed: false };
    let mut buf = vec![0u32; w * h];
    star.draw(&mut buf, w, h, 0, 300, 0x00FF00);
    assert_eq!(buf.iter().filter(|&&c| c == 0x00FF00).count(), 0);
    // the outline is clipped to the screen: right column and the two rows
    assert_eq!(buf[300 * w + 4], RED);
    assert_eq!(buf[296 * w], RED);
    assert_eq!(buf.iter().filter(|&&c| c == RED).count(), 9 + 4 + 4);
}

#[test]
fn ambient_star_steps_and_draws() {
    let mut star = Star { x: 500_000, y: -500_000, z: 30_000 };
    assert!(!star.approach(10_000));
    assert_eq!(star, Star { x: 500_000, y: -500_000, z: 20_000 });
    assert!(star.approach(10_000));
    assert_eq!(star.z, 10_000);
    star.respawn(-1, 2);
    assert_eq!(star, Star { x: -1, y: 2, z: 1_000_000 });

    assert_eq!(Star { x: 0, y: 0, z: 1_000_000 }.gray(), 0);
    assert_eq!(Star { x: 0, y: 0, z: 2_000_000 }.gray(), 0);
    // (1 - 0.5) * 255 = 127.5
    assert_eq!(Star { x: 0, y: 0, z: 500_000 }.gray(), 0x7F7F7F);
    assert_eq!(Star { x: 0, y: 0, z: 1 }.gray(), 0xFEFEFE);

    let (w, h) = (800usize, 600usize);
    let mut buf = vec![0u32; w * h];
    Star { x: 250_000, y: 0, z: 500_000 }.draw(&mut buf, w, h);
    assert_eq!(buf[300 * w + 600], 0x7F7F7F);
    assert_eq!(buf.iter().filter(|&&c| c != 0).count(), 1);
    // off the screen: nothing is written
    let mut buf = vec![0u32; w * h];
    Star { x: 900_000, y: 0, z: 500_000 }.draw(&mut buf, w, h);
    assert_eq!(buf.iter().filter(|&&c| c != 0).count(), 0);
}

#[test]
fn near_test_behind_the_viewer_and_at_depth_zero() {
    let behind = BigStar { x: 0, y: 0, z: -1_000_000, hit: false, was_missed: false };
    assert!(behind.is_near(800, 600, 400, 300, 12));
    assert!(!behind.is_near(800, 600, 404, 300, 12));
    // x / z = 0.5: 200 pixels right of the centre
    let mirrored = BigStar { x: -500_000, y: 0, z: -1_000_000, hit: false, was_missed: false };
    assert!(mirrored.is_near(800, 600, 600, 300, 1));
    assert!(!mirrored.is_near(800, 600, 200, 300, 900));
    let flat = BigStar { x: 0, y: 0, z: 0, hit: false, was_missed: false };
    assert!(!flat.is_near(800, 600, 400, 300, u32::MAX));
    assert!(!flat.is_near(800, 600, 0, 0, u32::MAX));
    let deep = BigStar { x: i32::MIN, y: i32::MAX, z: i32::MIN, hit: false, was_missed: false };
    // x / z = 1 projects to the right edge; y / z = -1 to the top
    assert!(deep.is_near(800, 600, 800, 0, 1));
    assert!(!deep.is_near(800, 600, 800, 2, 1));
}
