use combustion_probe::payload::DecodeError;
use combustion_probe::poller::{
    poll, record_archival, PollAction, PollEvent, CHANNEL_CAPACITY, POLL_INTERVAL_MS,
};
use combustion_probe::status::{S3Status, Svc, SvcStatus};

fn payload(raw: u16) -> Vec<u8> {
    let mut bytes = vec![0u8; 21];
    bytes[8] = (raw & 0xff) as u8;
    bytes[9] = (raw >> 8) as u8;
    bytes
}

fn connected() -> Svc {
    let mut svc = Svc::new();
    poll(&mut svc, PollEvent::ProbeFound);
    poll(&mut svc, PollEvent::SessionReady);
    svc
}

#[test]
fn loop_constants() {
    assert_eq!(POLL_INTERVAL_MS, 5000);
    assert_eq!(CHANNEL_CAPACITY, 100);
}

#[test]
fn the_stages_follow_each_other() {
    let mut svc = Svc::new();
    assert_eq!(svc.get_status(), SvcStatus::Discovering);
    assert_eq!(poll(&mut svc, PollEvent::ProbeFound), PollAction::Continue);
    assert_eq!(svc.get_status(), SvcStatus::Connecting);
    assert_eq!(poll(&mut svc, PollEvent::SessionReady), PollAction::Continue);
    assert_eq!(svc.get_status(), SvcStatus::Connected);
    assert_eq!(poll(&mut svc, PollEvent::Tick), PollAction::Read);
    assert_eq!(svc.get_status(), SvcStatus::Connected);
    assert_eq!(
        poll(&mut svc, PollEvent::Payload(payload(800))),
        PollAction::Forward { centi: 2000 }
    );
    assert_eq!(svc.get_status(), SvcStatus::Running);
    assert_eq!(svc.get_raw_temp(), 2000);
}

#[test]
fn no_stage_is_skipped_or_left_backwards() {
    let mut svc = Svc::new();
    poll(&mut svc, PollEvent::SessionReady);
    assert_eq!(svc.get_status(), SvcStatus::Discovering);
    poll(&mut svc, PollEvent::Payload(payload(800)));
    assert_eq!(svc.get_status(), SvcStatus::Discovering);
    assert_eq!(svc.get_raw_temp(), 0);
    let mut svc = connected();
    poll(&mut svc, PollEvent::Payload(payload(800)));
    for event in [
        PollEvent::ProbeFound,
        PollEvent::SessionReady,
        PollEvent::Tick,
        PollEvent::ReadFailed,
        PollEvent::Payload(vec![]),
        PollEvent::Cancelled,
    ] {
        poll(&mut svc, event);
        assert_eq!(svc.get_status(), SvcStatus::Running);
        assert_eq!(svc.get_raw_temp(), 2000);
    }
}

#[test]
fn no_read_before_the_session() {
    let mut svc = Svc::new();
    assert_eq!(poll(&mut svc, PollEvent::Tick), PollAction::Continue);
    poll(&mut svc, PollEvent::ProbeFound);
    assert_eq!(poll(&mut svc, PollEvent::Tick), PollAction::Continue);
    assert_eq!(poll(&mut svc, PollEvent::Payload(payload(800))), PollAction::Continue);
    assert_eq!(svc.get_status(), SvcStatus::Connecting);
}

#[test]
fn a_failed_read_is_soft() {
    let mut svc = connected();
    assert_eq!(poll(&mut svc, PollEvent::ReadFailed), PollAction::Continue);
    assert_eq!(svc.get_status(), SvcStatus::Connected);
    assert_eq!(poll(&mut svc, PollEvent::Tick), PollAction::Read);
    poll(&mut svc, PollEvent::Payload(payload(801)));
    assert_eq!(poll(&mut svc, PollEvent::ReadFailed), PollAction::Continue);
    assert_eq!(svc.get_status(), SvcStatus::Running);
    assert_eq!(svc.get_raw_temp(), 2005);
}

#[test]
fn a_short_payload_is_no_reading() {
    let mut svc = connected();
    assert_eq!(
        poll(&mut svc, PollEvent::Payload(vec![0u8; 20])),
        PollAction::Reject(DecodeError::InvalidPayloadLength)
    );
    assert_eq!(svc.get_status(), SvcStatus::Connected);
    assert_eq!(svc.get_raw_temp(), 0);
    assert_eq!(poll(&mut svc, PollEvent::Tick), PollAction::Read);
}

#[test]
fn cancellation_ends_the_loop_in_every_stage() {
    let mut svc = Svc::new();
    assert_eq!(poll(&mut svc, PollEvent::Cancelled), PollAction::Shutdown);
    assert_eq!(svc.get_status(), SvcStatus::Discovering);
    let mut svc = connected();
    assert_eq!(poll(&mut svc, PollEvent::Cancelled), PollAction::Shutdown);
    assert_eq!(svc.get_status(), SvcStatus::Connected);
}

#[test]
fn the_latest_reading_wins() {
    let mut svc = connected();
    for (raw, centi) in [(800u16, 2000), (801, 2005), (799, 1995), (0, -2000), (8191, 38955)] {
        assert_eq!(poll(&mut svc, PollEvent::Tick), PollAction::Read);
        assert_eq!(poll(&mut svc, PollEvent::Payload(payload(raw))), PollAction::Forward { centi });
        assert_eq!(svc.get_raw_temp(), centi);
        assert_eq!(svc.get_status(), SvcStatus::Running);
    }
}

#[test]
fn the_poller_leaves_the_archival_status_alone() {
    let mut svc = connected();
    record_archival(&mut svc, false);
    poll(&mut svc, PollEvent::Payload(payload(800)));
    assert_eq!(svc.get_s3_status(), S3Status::Error);
}

#[test]
fn archival_outcomes_are_recorded() {
    let mut svc = connected();
    record_archival(&mut svc, true);
    assert_eq!(svc.get_s3_status(), S3Status::Writing);
    record_archival(&mut svc, false);
    assert_eq!(svc.get_s3_status(), S3Status::Error);
    record_archival(&mut svc, true);
    assert_eq!(svc.get_s3_status(), S3Status::Writing);
    assert_eq!(svc.get_status(), SvcStatus::Connected);
    assert_eq!(svc.get_raw_temp(), 0);
}
