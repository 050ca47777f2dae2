use fnirsi_usbtester_flasher::flasher::{Action, Event, FlashError, FlashSession, Procedure, Stage};
use fnirsi_usbtester_flasher::packets::{
    device_info_request, erase_command, finalize_report, status_poll,
    write_report,
};

fn sealed_ok(r: &[u8]) -> bool {
    let mut crc: u8 = 0;
    for &b in &r[..63] {
        crc ^= b;
        for _ in 0..8 {
            crc = if crc & 0x80 != 0 { (crc << 1) ^ 0x39 } else { crc << 1 };
        }
    }
    r.len() == 64 && crc == r[63]
}

/// Runs a session, answering every send with `Sent`, every pause with `Slept`
/// and every read with `answer(stage)`; returns the reports sent, the pauses,
/// and the outcome.
fn drive(
    mut s: FlashSession,
    mut answer: impl FnMut(Stage) -> Event,
) -> (Vec<(Stage, Vec<u8>)>, Vec<u64>, Result<(), FlashError>) {
    let mut sent = Vec::new();
    let mut sleeps = Vec::new();
    loop {
        match s.next_action() {
            Action::Send { stage, report } => {
                sent.push((stage, report));
                s.advance(Event::Sent);
            }
            Action::Receive { stage, .. } => s.advance(answer(stage)),
            Action::Sleep { millis } => {
                sleeps.push(millis);
                s.advance(Event::Slept);
            }
            Action::Finished(r) => return (sent, sleeps, r),
        }
    }
}

fn good_answer(stage: Stage) -> Event {
    match stage {
        Stage::DeviceInfo => Event::Received(vec![0x27, 0x06, 0x45]),
        Stage::Erase => Event::Received(vec![0x29]),
        Stage::Chunk(_) => Event::Received(vec![0x2c; 64]),
        Stage::Finalize => Event::Received(vec![0x30]),
        Stage::StatusPoll => Event::ReceiveFailed,
    }
}

#[test]
fn initialize_happy_path() {
    let (sent, sleeps, r) = drive(FlashSession::initialize(), good_answer);
    assert_eq!(r, Ok(()));
    assert!(sleeps.is_empty());
    assert_eq!(sent.len(), 2);
    assert_eq!(sent[0], (Stage::DeviceInfo, device_info_request()));
    assert_eq!(sent[1], (Stage::Erase, erase_command()));
}

#[test]
fn initialize_timeouts() {
    let mut s = FlashSession::initialize();
    match s.next_action() {
        Action::Send { .. } => s.advance(Event::Sent),
        _ => panic!("expected a send"),
    }
    match s.next_action() {
        Action::Receive { stage, timeout_ms } => {
            assert_eq!(stage, Stage::DeviceInfo);
            assert_eq!(timeout_ms, 5000);
        }
        _ => panic!("expected a read"),
    }
    s.advance(Event::Received(vec![0x27]));
    s.advance(Event::Sent);
    match s.next_action() {
        Action::Receive { stage, timeout_ms } => {
            assert_eq!(stage, Stage::Erase);
            assert_eq!(timeout_ms, 30000);
        }
        _ => panic!("expected a read"),
    }
}

#[test]
fn device_info_wrong_code_is_rejected() {
    let (sent, _, r) = drive(FlashSession::initialize(), |_| Event::Received(vec![0x28]));
    assert_eq!(r, Err(FlashError::Rejected { stage: Stage::DeviceInfo, got: 0x28 }));
    assert_eq!(sent.len(), 1);
}

#[test]
fn empty_answer_is_rejected_with_zero() {
    let (_, _, r) = drive(FlashSession::initialize(), |_| Event::Received(vec![]));
    assert_eq!(r, Err(FlashError::Rejected { stage: Stage::DeviceInfo, got: 0 }));
}

#[test]
fn erase_failure_is_reported() {
    let (sent, _, r) = drive(FlashSession::initialize(), |stage| match stage {
        Stage::Erase => Event::Received(vec![0x2a]),
        other => good_answer(other),
    });
    assert_eq!(r, Err(FlashError::Rejected { stage: Stage::Erase, got: 0x2a }));
    assert_eq!(sent.len(), 2);
}

#[test]
fn read_error_during_initialize() {
    let (_, _, r) = drive(FlashSession::initialize(), |_| Event::ReceiveFailed);
    assert_eq!(r, Err(FlashError::ReceiveFailed(Stage::DeviceInfo)));
}

#[test]
fn send_error_stops_initialize() {
    let mut s = FlashSession::initialize();
    s.advance(Event::SendFailed);
    match s.next_action() {
        Action::Finished(r) => assert_eq!(r, Err(FlashError::SendFailed(Stage::DeviceInfo))),
        _ => panic!("expected the end"),
    }
    assert!(s.is_finished());
    s.advance(Event::Sent);
    assert_eq!(s.position(), 0);
}

#[test]
fn flash_happy_path_sends_every_chunk_then_finalize_and_polls() {
    let fw: Vec<u8> = (0..150u32).map(|i| (i * 5) as u8).collect();
    let s = FlashSession::flash_firmware(fw.clone());
    assert_eq!(s.procedure(), Procedure::Flash);
    assert_eq!(s.total_chunks(), 3);
    let (sent, sleeps, r) = drive(s, good_answer);
    assert_eq!(r, Ok(()));
    assert_eq!(sent.len(), 3 + 1 + 3);
    for i in 0..3 {
        assert_eq!(sent[i], (Stage::Chunk(i), write_report(&fw, i)));
    }
    assert_eq!(sent[3], (Stage::Finalize, finalize_report(&fw)));
    assert_eq!(sent[4], (Stage::StatusPoll, status_poll(0x81)));
    assert_eq!(sent[5], (Stage::StatusPoll, status_poll(0x82)));
    assert_eq!(sent[6], (Stage::StatusPoll, status_poll(0x82)));
    assert!(sent.iter().all(|(_, r)| sealed_ok(r)));
    assert_eq!(sleeps, vec![3000, 50, 50, 500]);
}

#[test]
fn rejected_chunk_stops_the_flash() {
    let fw = vec![7u8; 300];
    let (sent, _, r) = drive(FlashSession::flash_firmware(fw), |stage| match stage {
        Stage::Chunk(2) => Event::Received(vec![0x2d]),
        other => good_answer(other),
    });
    assert_eq!(r, Err(FlashError::Rejected { stage: Stage::Chunk(2), got: 0x2d }));
    assert_eq!(sent.len(), 3);
}

#[test]
fn failed_chunk_read_stops_the_flash() {
    let fw = vec![7u8; 100];
    let (_, _, r) = drive(FlashSession::flash_firmware(fw), |stage| match stage {
        Stage::Chunk(1) => Event::ReceiveFailed,
        other => good_answer(other),
    });
    assert_eq!(r, Err(FlashError::ReceiveFailed(Stage::Chunk(1))));
}

#[test]
fn finalize_answer_is_not_checked() {
    let fw = vec![1u8; 10];
    let (_, _, r) = drive(FlashSession::flash_firmware(fw), |stage| match stage {
        Stage::Finalize => Event::ReceiveFailed,
        Stage::StatusPoll => Event::Received(vec![0x00]),
        other => good_answer(other),
    });
    assert_eq!(r, Ok(()));
}

#[test]
fn failed_finalize_send_is_an_error_but_failed_polls_are_not() {
    let fw = vec![1u8; 10];
    let mut s = FlashSession::flash_firmware(fw.clone());
    s.advance(Event::Sent);
    s.advance(Event::Received(vec![0x2c]));
    s.advance(Event::SendFailed);
    match s.next_action() {
        Action::Finished(r) => assert_eq!(r, Err(FlashError::SendFailed(Stage::Finalize))),
        _ => panic!("expected the end"),
    }

    let mut s = FlashSession::flash_firmware(fw);
    loop {
        match s.next_action() {
            Action::Send { stage, .. } => {
                if stage == Stage::StatusPoll {
                    s.advance(Event::SendFailed);
                } else {
                    s.advance(Event::Sent);
                }
            }
            Action::Receive { stage, .. } => s.advance(good_answer(stage)),
            Action::Sleep { .. } => s.advance(Event::Slept),
            Action::Finished(r) => {
                assert_eq!(r, Ok(()));
                break;
            }
        }
    }
}

#[test]
fn empty_firmware_session_sends_blank_finalize() {
    let (sent, _, r) = drive(FlashSession::flash_firmware(Vec::new()), good_answer);
    assert_eq!(r, Ok(()));
    assert_eq!(sent[0].0, Stage::Finalize);
    assert_eq!(sent[0].1, finalize_report(&[]));
}

#[test]
fn flash_file_refuses_empty_contents() {
    assert_eq!(FlashSession::flash_file(Vec::new()).err(), Some(FlashError::EmptyFirmware));
    let s = FlashSession::flash_file(vec![1, 2, 3]).ok().unwrap();
    assert_eq!(s.total_chunks(), 1);
    assert_eq!(s.position(), 0);
}

#[test]
fn event_that_does_not_fit_changes_nothing() {
    let mut s = FlashSession::initialize();
    s.advance(Event::Slept);
    s.advance(Event::Received(vec![0x27]));
    assert_eq!(s.position(), 0);
    assert!(!s.is_finished());
}
