use car_core::{demo_waypoints, interpolate_color, ColorTransition, TRANSITION_STEPS};

#[test]
fn interpolation_truncates_toward_zero() {
    assert_eq!(interpolate_color((255, 0, 0), (0, 255, 0), 1, 20), (243, 12, 0));
    assert_eq!(interpolate_color((255, 0, 0), (0, 255, 0), 0, 20), (255, 0, 0));
    assert_eq!(interpolate_color((255, 0, 0), (0, 255, 0), 20, 20), (0, 255, 0));
    assert_eq!(interpolate_color((10, 10, 10), (0, 20, 10), 19, 20), (1, 19, 10));
}

#[test]
fn first_color_is_first_waypoint() {
    let w = demo_waypoints();
    let mut c = ColorTransition::new(&w);
    assert_eq!(c.next(), (255, 0, 0));
}

#[test]
fn full_cycle_returns_to_first_waypoint() {
    let w = demo_waypoints();
    let mut c = ColorTransition::new(&w);
    let period = TRANSITION_STEPS as usize * w.len();
    for _ in 0..period {
        c.next();
    }
    assert_eq!(c.next(), (255, 0, 0));
}

#[test]
fn legs_start_at_their_waypoints() {
    let w = demo_waypoints();
    let mut c = ColorTransition::new(&w);
    let mut seen = Vec::new();
    for _ in 0..(3 * TRANSITION_STEPS) {
        seen.push(c.next());
    }
    assert_eq!(seen[20], (0, 255, 0));
    assert_eq!(seen[40], (0, 0, 255));
    assert_eq!(seen[59], interpolate_color((0, 0, 255), (255, 0, 0), 19, 20));
}

#[test]
fn single_waypoint_stays_constant() {
    let w = [(7u8, 8u8, 9u8)];
    let mut c = ColorTransition::new(&w);
    for _ in 0..50 {
        assert_eq!(c.next(), (7, 8, 9));
    }
}

#[test]
fn interpolation_past_the_end_keeps_low_byte() {
    assert_eq!(interpolate_color((0, 0, 0), (255, 10, 0), 40, 20), (254, 20, 0));
    assert_eq!(interpolate_color((10, 0, 7), (0, 0, 7), 40, 20), (246, 0, 7));
}
