use car_core::{
    LinAction, LinError, LinEvent, LinFrame, LinRequest, LinTransaction, HEADER_TIMEOUT_MS,
    RESPONSE_TIMEOUT_MS,
};

fn written(action: LinAction) -> Vec<u8> {
    match action {
        LinAction::Write(bytes) => bytes,
        _ => panic!("expected a write"),
    }
}

fn finished(action: LinAction) -> Result<Option<LinFrame>, LinError> {
    match action {
        LinAction::Finish(result) => result,
        _ => panic!("expected the end of the transaction"),
    }
}

#[test]
fn write_transaction_runs_break_header_payload_and_drain() {
    let frame = LinFrame::from_data(5, &[1]);
    let (mut t, first) = LinTransaction::begin(LinRequest::Write(frame));
    assert!(matches!(first, LinAction::SendBreak));
    assert_eq!(written(t.advance(LinEvent::Received(vec![0]))), vec![0x55, 0x85]);
    assert!(matches!(
        t.advance(LinEvent::Written),
        LinAction::ReadExact(2, HEADER_TIMEOUT_MS)
    ));
    assert_eq!(written(t.advance(LinEvent::Received(vec![0x55, 0x85]))), vec![1, 121]);
    assert!(matches!(t.advance(LinEvent::Written), LinAction::ReadEcho));
    assert!(matches!(t.advance(LinEvent::TimedOut), LinAction::ReadEcho));
    assert!(matches!(finished(t.advance(LinEvent::Received(vec![121]))), Ok(None)));
}

#[test]
fn break_timeout_does_not_abort() {
    let (mut t, _) = LinTransaction::begin(LinRequest::Read { id: 7, data_length: 2 });
    assert_eq!(written(t.advance(LinEvent::TimedOut)), vec![0x55, 0x47]);
}

#[test]
fn break_bus_fault_does_not_abort() {
    let (mut t, _) = LinTransaction::begin(LinRequest::Read { id: 7, data_length: 2 });
    assert_eq!(written(t.advance(LinEvent::BusFault)), vec![0x55, 0x47]);
}

#[test]
fn read_transaction_checks_response() {
    let (mut t, _) = LinTransaction::begin(LinRequest::Read { id: 7, data_length: 2 });
    t.advance(LinEvent::Received(vec![]));
    t.advance(LinEvent::Written);
    assert!(matches!(
        t.advance(LinEvent::Received(vec![0x55, 0x47])),
        LinAction::ReadExact(3, RESPONSE_TIMEOUT_MS)
    ));
    let frame = finished(t.advance(LinEvent::Received(vec![0x12, 0x34, 114])))
        .unwrap()
        .unwrap();
    assert_eq!(frame.get_data(), &[0x12, 0x34]);
    assert_eq!(frame.get_id(), 7);
}

#[test]
fn read_transaction_reports_checksum_mismatch() {
    let (mut t, _) = LinTransaction::begin(LinRequest::Read { id: 7, data_length: 2 });
    t.advance(LinEvent::TimedOut);
    t.advance(LinEvent::Written);
    t.advance(LinEvent::Received(vec![0x55, 0x47]));
    assert!(matches!(
        finished(t.advance(LinEvent::Received(vec![0x12, 0x34, 115]))),
        Err(LinError::Checksum)
    ));
}

#[test]
fn read_transaction_reports_timeout_and_bus_fault() {
    let (mut t, _) = LinTransaction::begin(LinRequest::Read { id: 7, data_length: 2 });
    t.advance(LinEvent::TimedOut);
    t.advance(LinEvent::Written);
    t.advance(LinEvent::Received(vec![0x55, 0x47]));
    assert!(matches!(finished(t.advance(LinEvent::TimedOut)), Err(LinError::Timeout)));

    let (mut t, _) = LinTransaction::begin(LinRequest::Read { id: 7, data_length: 2 });
    t.advance(LinEvent::TimedOut);
    t.advance(LinEvent::Written);
    t.advance(LinEvent::Received(vec![0x55, 0x47]));
    assert!(matches!(finished(t.advance(LinEvent::BusFault)), Err(LinError::PhysicalBus)));
}

#[test]
fn header_loop_back_mismatch_ends_transaction() {
    let (mut t, _) = LinTransaction::begin(LinRequest::Write(LinFrame::from_data(6, &[1, 2, 3])));
    t.advance(LinEvent::TimedOut);
    t.advance(LinEvent::Written);
    assert!(matches!(
        finished(t.advance(LinEvent::Received(vec![0x55, 0x07]))),
        Err(LinError::HeaderEcho)
    ));
}

#[test]
fn header_write_failures_end_transaction() {
    let (mut t, _) = LinTransaction::begin(LinRequest::Write(LinFrame::from_data(6, &[1])));
    t.advance(LinEvent::TimedOut);
    assert!(matches!(finished(t.advance(LinEvent::TimedOut)), Err(LinError::Timeout)));

    let (mut t, _) = LinTransaction::begin(LinRequest::Write(LinFrame::from_data(6, &[1])));
    t.advance(LinEvent::TimedOut);
    t.advance(LinEvent::Written);
    assert!(matches!(finished(t.advance(LinEvent::BusFault)), Err(LinError::PhysicalBus)));
}
