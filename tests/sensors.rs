use car_core::{
    echo_distance_mm, ignition_millivolts, measurement_from_echo, SpeedEstimator,
    UltrasoundArray, UltrasoundChannel, UltrasoundResult, AVERAGE_WINDOW, ULTRASOUND_CHANNELS,
};

#[test]
fn echo_time_converts_to_millimetres() {
    assert_eq!(echo_distance_mm(575), 100);
    assert_eq!(echo_distance_mm(1000), 173);
    assert_eq!(echo_distance_mm(0), 0);
    assert_eq!(echo_distance_mm(10_000), 1739);
}

#[test]
fn missing_echo_is_a_failure() {
    assert_eq!(measurement_from_echo(None), UltrasoundResult::Fail);
    assert_eq!(measurement_from_echo(Some(575)), UltrasoundResult::Measurement(100));
}

#[test]
fn constant_input_settles_on_that_value() {
    let mut ch = UltrasoundChannel::new();
    ch.record(UltrasoundResult::Measurement(900));
    ch.record(UltrasoundResult::Measurement(10));
    let mut last = UltrasoundResult::Fail;
    for _ in 0..AVERAGE_WINDOW {
        last = ch.record(UltrasoundResult::Measurement(250));
    }
    assert_eq!(last, UltrasoundResult::Measurement(250));
    assert_eq!(
        ch.record(UltrasoundResult::Measurement(250)),
        UltrasoundResult::Measurement(250)
    );
}

#[test]
fn average_rounds_down_before_window_fills() {
    let mut ch = UltrasoundChannel::new();
    assert_eq!(ch.record(UltrasoundResult::Measurement(10)), UltrasoundResult::Measurement(10));
    assert_eq!(ch.record(UltrasoundResult::Measurement(15)), UltrasoundResult::Measurement(12));
    assert_eq!(ch.record(UltrasoundResult::Measurement(20)), UltrasoundResult::Measurement(15));
}

#[test]
fn window_drops_oldest_sample() {
    let mut ch = UltrasoundChannel::new();
    ch.record(UltrasoundResult::Measurement(1200));
    for _ in 0..(AVERAGE_WINDOW - 1) {
        ch.record(UltrasoundResult::Measurement(0));
    }
    assert_eq!(ch.record(UltrasoundResult::Fail), UltrasoundResult::Measurement(100));
    assert_eq!(ch.record(UltrasoundResult::Measurement(0)), UltrasoundResult::Measurement(0));
}

#[test]
fn failure_before_any_sample_reports_fail() {
    let mut ch = UltrasoundChannel::new();
    assert_eq!(ch.record(UltrasoundResult::Fail), UltrasoundResult::Fail);
}

#[test]
fn failure_does_not_change_the_average() {
    let mut with_fail = UltrasoundChannel::new();
    let mut without = UltrasoundChannel::new();
    with_fail.record(UltrasoundResult::Measurement(100));
    without.record(UltrasoundResult::Measurement(100));
    assert_eq!(with_fail.record(UltrasoundResult::Fail), UltrasoundResult::Measurement(100));
    assert_eq!(
        with_fail.record(UltrasoundResult::Measurement(300)),
        without.record(UltrasoundResult::Measurement(300))
    );
}

#[test]
fn sweep_keeps_channels_apart() {
    let mut array = UltrasoundArray::new();
    let first = [
        UltrasoundResult::Measurement(10),
        UltrasoundResult::Fail,
        UltrasoundResult::Measurement(30),
        UltrasoundResult::Measurement(40),
        UltrasoundResult::Fail,
        UltrasoundResult::Measurement(60),
    ];
    let r = array.sweep(&first);
    assert_eq!(r.len(), ULTRASOUND_CHANNELS);
    assert_eq!(r, first.to_vec());
    let second = [
        UltrasoundResult::Measurement(20),
        UltrasoundResult::Measurement(5),
        UltrasoundResult::Fail,
        UltrasoundResult::Measurement(50),
        UltrasoundResult::Fail,
        UltrasoundResult::Measurement(61),
    ];
    let r = array.sweep(&second);
    assert_eq!(
        r,
        vec![
            UltrasoundResult::Measurement(15),
            UltrasoundResult::Measurement(5),
            UltrasoundResult::Measurement(30),
            UltrasoundResult::Measurement(45),
            UltrasoundResult::Fail,
            UltrasoundResult::Measurement(60),
        ]
    );
}

#[test]
fn rotary_speed_for_615_ticks_in_one_period() {
    let mut est = SpeedEstimator::new();
    // 615 ticks = 10 cm in 50 ms: 720 000 cm/h, that is 7.2 km/h.
    assert_eq!(est.sample(615), 720_000);
    assert_eq!(est.sample(0), -720_000);
    assert_eq!(est.sample(0), 0);
}

#[test]
fn rotary_speed_rounds_down() {
    let mut est = SpeedEstimator::new();
    assert_eq!(est.sample(1), 1170);
    assert_eq!(est.sample(u16::MAX), 76_722_731);
}

#[test]
fn ignition_voltage_from_divider() {
    assert_eq!(ignition_millivolts(2000, 1500), 6679);
    assert_eq!(ignition_millivolts(0, 1500), 0);
    assert_eq!(ignition_millivolts(1500, 1500), 5009);
}
