use car_core::{
    check_header_echo, demo_waypoints, header_bytes, next_indicator, LinError, LinFrame,
    LinRequest, LinSchedule, ResponseRead, LIN_FRAME_LEDS, LIN_FRAME_PHOTORES, LIN_FRAME_RGB,
    PHOTORES_DATA_LEN, SYNC_BYTE,
};

#[test]
fn protected_ids_carry_parity_bits() {
    assert_eq!(LinFrame::from_data(0, &[]).get_pid(), 0x80);
    assert_eq!(LinFrame::from_data(29, &[]).get_pid(), 0xDD);
    assert_eq!(LinFrame::from_data(LIN_FRAME_LEDS, &[1]).get_pid(), 0x85);
    assert_eq!(LinFrame::from_data(LIN_FRAME_RGB, &[1]).get_pid(), 0x06);
    assert_eq!(LinFrame::from_data(LIN_FRAME_PHOTORES, &[1]).get_pid(), 0x47);
}

#[test]
fn enhanced_checksum_values() {
    assert_eq!(LinFrame::from_data(LIN_FRAME_LEDS, &[1]).get_checksum(), 121);
    assert_eq!(LinFrame::from_data(LIN_FRAME_RGB, &[255, 0, 0]).get_checksum(), 249);
    assert_eq!(LinFrame::from_data(LIN_FRAME_PHOTORES, &[0x12, 0x34]).get_checksum(), 114);
}

#[test]
fn classic_checksum_for_diagnostic_ids() {
    assert_eq!(LinFrame::from_data(60, &[1, 2, 3]).get_checksum(), 249);
    assert_eq!(LinFrame::from_data(0x3D, &[0x01]).get_checksum(), 0xFE);
    assert_eq!(
        LinFrame::from_data(0x3D, &[1, 2, 3, 4, 5, 6, 7, 8]).get_checksum(),
        0xDB
    );
}

#[test]
fn data_with_checksum_appends_checksum() {
    let f = LinFrame::from_data(LIN_FRAME_RGB, &[255, 0, 0]);
    assert_eq!(f.get_data(), &[255, 0, 0]);
    assert_eq!(f.get_data_with_checksum(), vec![255, 0, 0, 249]);
    assert_eq!(f.get_id(), LIN_FRAME_RGB);
}

#[test]
fn frame_round_trips_through_response_check() {
    for id in [0u8, 5, 7, 33, 59, 60, 63] {
        let data = [0x12u8, 0x00, 0xFF, 0x80];
        let sent = LinFrame::from_data(id, &data);
        let bytes = sent.get_data_with_checksum();
        let back = LinFrame::from_response(id, ResponseRead::Received(bytes), data.len()).unwrap();
        assert_eq!(back.get_data(), &data);
        assert_eq!(back.get_checksum(), sent.get_checksum());
    }
}

#[test]
fn empty_and_full_payloads_round_trip() {
    let sent = LinFrame::from_data(7, &[]);
    let back = LinFrame::from_response(7, ResponseRead::Received(sent.get_data_with_checksum()), 0)
        .unwrap();
    assert_eq!(back.get_data(), &[] as &[u8]);
    let full = [1u8, 2, 3, 4, 5, 6, 7, 8];
    let sent = LinFrame::from_data(7, &full);
    let back = LinFrame::from_response(7, ResponseRead::Received(sent.get_data_with_checksum()), 8)
        .unwrap();
    assert_eq!(back.get_data(), &full);
}

#[test]
fn single_byte_corruption_is_detected() {
    let sent = LinFrame::from_data(LIN_FRAME_PHOTORES, &[0x12, 0x34]).get_data_with_checksum();
    for i in 0..sent.len() {
        for b in 0..=255u8 {
            if b == sent[i] {
                continue;
            }
            let swapped = i < 2 && ((b == 0 && sent[i] == 0xFF) || (b == 0xFF && sent[i] == 0));
            if swapped {
                continue;
            }
            let mut bad = sent.clone();
            bad[i] = b;
            let r = LinFrame::from_response(LIN_FRAME_PHOTORES, ResponseRead::Received(bad), 2);
            assert!(matches!(r, Err(LinError::Checksum)));
        }
    }
}

#[test]
fn zero_and_ff_swap_in_payload_is_not_detected() {
    let a = LinFrame::from_data(LIN_FRAME_PHOTORES, &[0x00, 0x34]);
    let b = LinFrame::from_data(LIN_FRAME_PHOTORES, &[0xFF, 0x34]);
    assert_eq!(a.get_checksum(), 132);
    assert_eq!(b.get_checksum(), 132);
}

#[test]
fn response_read_errors_are_classified() {
    assert!(matches!(
        LinFrame::from_response(7, ResponseRead::TimedOut, 2),
        Err(LinError::Timeout)
    ));
    assert!(matches!(
        LinFrame::from_response(7, ResponseRead::BusFault, 2),
        Err(LinError::PhysicalBus)
    ));
    assert!(matches!(
        LinFrame::from_response(7, ResponseRead::Received(vec![0x12, 0x34, 0]), 2),
        Err(LinError::Checksum)
    ));
}

#[test]
fn header_is_sync_then_pid() {
    assert_eq!(header_bytes(0x47), vec![SYNC_BYTE, 0x47]);
    assert_eq!(SYNC_BYTE, 0x55);
}

#[test]
fn header_echo_must_match_exactly() {
    assert_eq!(check_header_echo(&[0x55, 0x47], &[0x55, 0x47]), Ok(()));
    assert_eq!(
        check_header_echo(&[0x55, 0x47], &[0x55, 0x46]),
        Err(LinError::HeaderEcho)
    );
    assert_eq!(
        check_header_echo(&[0x55, 0x47], &[0x55]),
        Err(LinError::HeaderEcho)
    );
}

#[test]
fn indicator_bit_rotates_through_four_bits() {
    assert_eq!(next_indicator(1), 2);
    assert_eq!(next_indicator(2), 4);
    assert_eq!(next_indicator(4), 8);
    assert_eq!(next_indicator(8), 1);
    assert_eq!(next_indicator(0), 1);
    assert_eq!(next_indicator(0x80), 1);
}

fn frame_of(request: LinRequest) -> LinFrame {
    match request {
        LinRequest::Write(frame) => frame,
        LinRequest::Read { .. } => panic!("expected a write"),
    }
}

#[test]
fn schedule_emits_indicator_color_then_sensor_poll() {
    let waypoints = demo_waypoints();
    let mut schedule = LinSchedule::new(&waypoints);
    let (leds, rgb, poll) = schedule.next_cycle();
    let (leds, rgb) = (frame_of(leds), frame_of(rgb));
    assert_eq!(leds.get_id(), LIN_FRAME_LEDS);
    assert_eq!(leds.get_data(), &[1]);
    assert_eq!(rgb.get_id(), LIN_FRAME_RGB);
    assert_eq!(rgb.get_data(), &[255, 0, 0]);
    assert!(matches!(
        poll,
        LinRequest::Read { id: LIN_FRAME_PHOTORES, data_length: PHOTORES_DATA_LEN }
    ));
    let (leds, rgb, _) = schedule.next_cycle();
    assert_eq!(frame_of(leds).get_data(), &[2]);
    assert_eq!(frame_of(rgb).get_data(), &[243, 12, 0]);
    let (leds, _, _) = schedule.next_cycle();
    assert_eq!(frame_of(leds).get_data(), &[4]);
    let (leds, _, _) = schedule.next_cycle();
    assert_eq!(frame_of(leds).get_data(), &[8]);
    let (leds, _, _) = schedule.next_cycle();
    assert_eq!(frame_of(leds).get_data(), &[1]);
}

#[test]
fn schedule_identifiers_share_a_base() {
    assert_eq!(LIN_FRAME_LEDS, 5);
    assert_eq!(LIN_FRAME_RGB, 6);
    assert_eq!(LIN_FRAME_PHOTORES, 7);
    assert_eq!(PHOTORES_DATA_LEN, 2);
}
