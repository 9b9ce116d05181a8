use on_thin_ice::actions::{actions_from_keys, Actions};
use on_thin_ice::agent::animal_steering;
use on_thin_ice::field::{filter_image_data, CracksData, DamageField, PixelData};
use on_thin_ice::motion::{clamp_i64, heading_vector, rotate_heading, step_position, Pos};
use on_thin_ice::rng::SimRng;
use on_thin_ice::spawn::{pick_spawn_point, sample_spawn_points, SpawnError};
use on_thin_ice::trig::{cosine_scaled, sine_scaled, FULL_TURN_MDEG, TRIG_SCALE};
use on_thin_ice::motion::{POS_X_LIMIT, POS_Y_LIMIT};
use on_thin_ice::{
    CELL_MILLI, GRID_COLS, GRID_ROWS, HALF_HEIGHT_MILLI, HALF_WIDTH_MILLI, MARGIN_MILLI, MILLI,
    WORLD_HEIGHT, WORLD_WIDTH,
};

#[test]
fn world_constants_are_consistent() {
    assert_eq!(HALF_WIDTH_MILLI, WORLD_WIDTH * MILLI / 2);
    assert_eq!(HALF_HEIGHT_MILLI, WORLD_HEIGHT * MILLI / 2);
    assert_eq!(GRID_COLS as i64 * CELL_MILLI, WORLD_WIDTH * MILLI);
    assert_eq!(GRID_ROWS as i64 * CELL_MILLI, WORLD_HEIGHT * MILLI);
    assert_eq!(POS_X_LIMIT, HALF_WIDTH_MILLI - MARGIN_MILLI);
    assert_eq!(POS_Y_LIMIT, HALF_HEIGHT_MILLI - MARGIN_MILLI);
    assert_eq!(FULL_TURN_MDEG, 360_000);
    assert_eq!(TRIG_SCALE, 10_000);
}

#[test]
fn sine_matches_reference_points() {
    assert_eq!(sine_scaled(0), 0);
    assert_eq!(sine_scaled(30), 5000);
    assert_eq!(sine_scaled(45), 7058);
    assert_eq!(sine_scaled(90), 10000);
    assert_eq!(sine_scaled(150), 5000);
    assert_eq!(sine_scaled(180), 0);
    assert_eq!(sine_scaled(210), -5000);
    assert_eq!(sine_scaled(270), -10000);
    assert_eq!(sine_scaled(359), -177);
}

#[test]
fn cosine_matches_reference_points() {
    assert_eq!(cosine_scaled(0), 10000);
    assert_eq!(cosine_scaled(30), 8648);
    assert_eq!(cosine_scaled(45), 7058);
    assert_eq!(cosine_scaled(90), 0);
    assert_eq!(cosine_scaled(180), -10000);
    assert_eq!(cosine_scaled(270), 0);
    assert_eq!(cosine_scaled(359), 9998);
}

#[test]
fn heading_vectors_are_unit_length_within_tolerance() {
    for deg in 0..360u32 {
        let (x, y) = heading_vector(deg * 1000 + 500);
        let norm_sq = x * x + y * y;
        assert!(norm_sq >= 99_630_728, "norm too small at {} degrees", deg);
        assert!(norm_sq <= 100_013_220, "norm too large at {} degrees", deg);
    }
}

#[test]
fn rotation_wraps_and_keeps_range() {
    // a full second of the player's clockwise rate
    assert_eq!(rotate_heading(0, 68_755, 1000), 68_755);
    // one 16 ms frame of the counterclockwise rate wraps below zero
    assert_eq!(rotate_heading(0, -68_755, 16), 358_900);
    // zero rate is a no-op
    assert_eq!(rotate_heading(123_456, 0, 1000), 123_456);
    for h in [0u32, 90_000, 359_999] {
        for rate in [-200_000i64, -1, 0, 1, 200_000] {
            let r = rotate_heading(h, rate, 1000);
            assert!(r < 360_000);
        }
    }
}

#[test]
fn straight_step_advances_along_heading() {
    let p = Pos { x: 0, y: 0 };
    // heading "up": one 16 ms frame at player speed covers 1.12 units
    let q = step_position(p, 0, 70, 16);
    assert_eq!(q, Pos { x: 0, y: 1120 });
    // heading "east"
    let q = step_position(p, 90_000, 70, 16);
    assert_eq!(q, Pos { x: 1120, y: 0 });
}

#[test]
fn step_clamps_to_world_margin() {
    // pinned against the east edge, heading east: the clamp holds it
    let p = Pos { x: 384_000, y: -245_000 };
    let q = step_position(p, 90_000, 70, 410);
    assert_eq!(q, p);
    // running north from near the top edge stops at the margin
    let p = Pos { x: 0, y: 283_500 };
    let q = step_position(p, 0, 70, 1000);
    assert_eq!(q, Pos { x: 0, y: 284_000 });
}

#[test]
fn clamp_orders_values() {
    assert_eq!(clamp_i64(5, 0, 10), 5);
    assert_eq!(clamp_i64(-5, 0, 10), 0);
    assert_eq!(clamp_i64(15, 0, 10), 10);
}

#[test]
fn key_mapping_matches_rules() {
    assert_eq!(actions_from_keys(false, false).steering, None);
    assert_eq!(actions_from_keys(true, true).steering, None);
    assert_eq!(actions_from_keys(true, false).steering, Some(-68_755));
    assert_eq!(actions_from_keys(false, true).steering, Some(68_755));
}

#[test]
fn key_update_carries_and_clears() {
    let mut a = Actions { steering: None };
    // pressing right starts a clockwise turn
    a.update_from_keys(false, true, false, true, false, false);
    assert_eq!(a.steering, Some(68_755));
    // holding right carries the turn over
    a.update_from_keys(false, true, false, false, false, false);
    assert_eq!(a.steering, Some(68_755));
    // releasing right with left still down yields to left
    a.update_from_keys(true, false, false, false, false, true);
    assert_eq!(a.steering, Some(-68_755));
    // releasing everything goes straight for one frame, then clears
    a.update_from_keys(false, false, false, false, true, false);
    assert_eq!(a.steering, Some(0));
    a.update_from_keys(false, false, false, false, false, false);
    assert_eq!(a.steering, None);
}

#[test]
fn steering_toggle_follows_draws() {
    // a draw in the lower toggle half starts a clockwise turn
    assert_eq!(animal_steering(None, 5_000_000), Some(26_680));
    // a draw in the upper toggle half starts a counterclockwise turn
    let r = animal_steering(None, 15_000_000);
    assert!(matches!(r, Some(v) if v < 0));
    // a draw outside the toggle range keeps going straight
    assert_eq!(animal_steering(None, 4_000_000_000), None);
    // while turning, a toggle draw stops the turn
    assert_eq!(animal_steering(Some(26_680), 5_000_000), None);
    // while turning, any other draw keeps the turn
    assert_eq!(animal_steering(Some(26_680), 4_000_000_000), Some(26_680));
}

#[test]
fn rng_streams_replay_bit_for_bit() {
    let mut a = SimRng::seeded(42);
    let mut b = SimRng::seeded(42);
    let first: Vec<u32> = (0..64).map(|_| a.next_draw()).collect();
    let second: Vec<u32> = (0..64).map(|_| b.next_draw()).collect();
    assert_eq!(first, second);
    assert_eq!(first[0], 3_184_996_902);
}

#[test]
fn filter_keeps_positive_bytes_in_order() {
    let data = vec![0u8, 5, 7, 0];
    let r = filter_image_data(&data, 1, 2, 2);
    assert_eq!(r.len(), 2);
    assert_eq!(
        r[0],
        PixelData { row: 0, column: 0, offset: 1, data: 5 }
    );
    assert_eq!(
        r[1],
        PixelData { row: 0, column: 1, offset: 0, data: 7 }
    );
}

#[test]
fn stencil_choice_splits_the_draw_space() {
    let cracks = CracksData {
        cracks_0: vec![PixelData { row: 1, column: 1, offset: 0, data: 9 }],
        cracks_1: vec![PixelData { row: 2, column: 2, offset: 1, data: 8 }],
    };
    assert_eq!(cracks.chosen(0x8000_0000)[0].data, 9);
    assert_eq!(cracks.chosen(0x7FFF_FFFF)[0].data, 8);
    let picked = cracks.random();
    assert!(picked[0].data == 9 || picked[0].data == 8);
}

#[test]
fn double_stamp_saturates_without_wrapping() {
    let mut field = DamageField::new();
    let stencil = vec![PixelData { row: 16, column: 16, offset: 0, data: 200 }];
    let k = (100 * 800 + 100) * 4;
    field.stamp(&stencil, 100, 100);
    assert_eq!(field.byte_at(k), 200);
    field.stamp(&stencil, 100, 100);
    assert_eq!(field.byte_at(k), 255);
}

#[test]
fn stamp_clips_at_the_border() {
    let mut field = DamageField::new();
    // centered at the top-left corner, only offsets past the stencil
    // half survive the clip
    let stencil = vec![
        PixelData { row: 0, column: 0, offset: 0, data: 50 },
        PixelData { row: 16, column: 16, offset: 0, data: 60 },
    ];
    field.stamp(&stencil, 0, 0);
    assert_eq!(field.byte_at(0), 60);
}

#[test]
fn spawn_points_keep_min_separation() {
    let mut rng = SimRng::seeded(7);
    let pts = sample_spawn_points(5, 100_000, &mut rng).expect("the area fits five points");
    assert_eq!(pts.len(), 5);
    for i in 0..pts.len() {
        assert!(pts[i].x >= -300_000 && pts[i].x <= 300_000);
        assert!(pts[i].y >= -200_000 && pts[i].y <= 200_000);
        for j in (i + 1)..pts.len() {
            let dx = pts[i].x - pts[j].x;
            let dy = pts[i].y - pts[j].y;
            assert!(dx * dx + dy * dy >= 100_000i64 * 100_000);
        }
    }
}

#[test]
fn spawn_sampling_reports_exhaustion() {
    let mut rng = SimRng::seeded(7);
    let r = sample_spawn_points(200, 100_000, &mut rng);
    assert_eq!(r.unwrap_err(), SpawnError::ExhaustedSpawnAttempts);
}

#[test]
fn single_spawn_point_avoids_taken_points() {
    let mut rng = SimRng::seeded(3);
    let taken = vec![Pos { x: 0, y: 0 }];
    let p = pick_spawn_point(&taken, 100_000, &mut rng).expect("plenty of room");
    let dd = p.x * p.x + p.y * p.y;
    assert!(dd >= 100_000i64 * 100_000);
}

#[test]
fn sampling_is_deterministic_and_leaves_equal_streams() {
    let mut a = SimRng::seeded(9);
    let mut b = SimRng::seeded(9);
    let pa = sample_spawn_points(4, 100_000, &mut a).expect("the area fits four points");
    let pb = sample_spawn_points(4, 100_000, &mut b).expect("the area fits four points");
    assert_eq!(pa, pb);
    // both generators consumed exactly the same draws: the streams agree
    // from here on
    assert_eq!(a.next_draw(), b.next_draw());
}

#[test]
fn picking_from_an_empty_wave_always_succeeds() {
    let mut rng = SimRng::seeded(0);
    let taken: Vec<Pos> = Vec::new();
    assert!(pick_spawn_point(&taken, 1_000_000, &mut rng).is_ok());
}
