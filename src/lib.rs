//! Sensor-fusion and bus-gateway logic for a small wheeled vehicle: LIN master
//! framing, ultrasonic smoothing, speed estimation, servo mapping and the CAN
//! telemetry cache.
pub mod color;
pub mod lin;
pub mod schedule;
pub mod servo;
pub mod speed;
pub mod telemetry;
pub mod ignition;
pub mod ultrasound;

pub use color::{
    interpolate_color, lemma_full_cycle_closes, Color, ColorCycle, ColorTransition, TRANSITION_STEPS,
};
pub use lin::{
    check_header_echo, header_bytes, lemma_frame_round_trip, lemma_single_byte_corruption_detected,
    FrameModel, LinAction, LinError, LinEvent, LinFrame, LinRequest, LinStep, LinTransaction,
    ResponseRead, FIRST_CLASSIC_ID,
    HEADER_TIMEOUT_MS, MAX_DATA_LEN, RESPONSE_TIMEOUT_MS, SYNC_BYTE,
};
pub use schedule::{
    demo_waypoints, next_indicator, LinSchedule, LIN_FRAME_LEDS, LIN_FRAME_OFFSET,
    LIN_FRAME_PHOTORES, LIN_FRAME_RGB, PHOTORES_DATA_LEN,
};
pub use ultrasound::{
    echo_distance_mm, lemma_constant_input_settles, lemma_fail_leaves_average,
    lemma_settled_window_reports,
    measurement_from_echo, UltrasoundArray, UltrasoundChannel, UltrasoundResult, AVERAGE_WINDOW,
    ECHO_TIMEOUT_MS, MAX_SAMPLE_MM, TRIGGER_PULSE_US, ULTRASOUND_CHANNELS,
};
pub use servo::{lemma_servo_mapping, Servo};
pub use speed::{SpeedEstimator, SPEED_PERIOD_MS, TICKS_PER_10_CM};
pub use telemetry::{
    lemma_quiet_cycle_repeats, to_distance_field, Telemetry, MAX_DISTANCE_FIELD, TelemetryCache, TelemetryState,
    TELEMETRY_PERIOD_MS,
};
pub use ignition::{ignition_millivolts, DIVIDER_R1, DIVIDER_R2, VREFINT_MV};
