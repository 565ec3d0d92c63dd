//! The polling loop: it moves the service through its stages, asks for a
//! read on every tick, and turns each payload into a temperature for the
//! status cell and the uploader.
//!
//! The caller owns the timer, the radio and the channel to the uploader. It
//! reports [`PollEvent`]s and carries out [`PollAction`]s.

use crate::payload::{decode, decoded_temp, DecodeError, RawPayload, PAYLOAD_LEN};
use crate::status::{S3Status, Svc, SvcStatus, SvcView};
use vstd::prelude::*;

verus! {

/// Time between two reads, in milliseconds.
pub const POLL_INTERVAL_MS: u64 = 5000;

/// Readings the channel to the uploader holds before the loop has to wait.
pub const CHANNEL_CAPACITY: usize = 100;

/// What happened around the polling loop.
#[derive(Debug)]
pub enum PollEvent {
    /// Discovery handed over a probe.
    ProbeFound,
    /// The connection handed over a session.
    SessionReady,
    /// The timer ticked.
    Tick,
    /// A read of the status characteristic returned these bytes.
    Payload(Vec<u8>),
    /// A read of the status characteristic failed.
    ReadFailed,
    /// The cancellation signal fired.
    Cancelled,
}

/// What the caller does next.
#[derive(Clone, Copy, Debug, PartialEq, Eq, Structural)]
pub enum PollAction {
    /// Nothing; wait for the next event.
    Continue,
    /// Read the status characteristic and report what came of it.
    Read,
    /// Send this temperature, in hundredths of a degree Celsius, to the
    /// uploader, waiting while the channel is full.
    Forward { centi: i32 },
    /// The read brought no payload: log the error and wait for the next
    /// event.
    Reject(DecodeError),
    /// Leave the loop, then disconnect.
    Shutdown,
}

/// Reads go through a session, so there are none before the service is
/// connected.
pub open spec fn can_read(status: SvcStatus) -> bool {
    status == SvcStatus::Connected || status == SvcStatus::Running
}

/// The bytes of a read hold a whole payload and the service is connected:
/// the read counts as a reading.
pub open spec fn is_reading(svc: SvcView, bytes: Seq<u8>) -> bool {
    can_read(svc.status) && bytes.len() >= PAYLOAD_LEN
}

/// The status cell after `event`.
pub open spec fn poll_step(svc: SvcView, event: PollEvent) -> SvcView {
    match event {
        PollEvent::ProbeFound => if svc.status == SvcStatus::Discovering {
            SvcView { status: SvcStatus::Connecting, ..svc }
        } else {
            svc
        },
        PollEvent::SessionReady => if svc.status == SvcStatus::Connecting {
            SvcView { status: SvcStatus::Connected, ..svc }
        } else {
            svc
        },
        PollEvent::Payload(bytes) => if is_reading(svc, bytes@) {
            SvcView {
                status: SvcStatus::Running,
                raw_temp: decoded_temp(bytes@.subrange(0, PAYLOAD_LEN as int)),
                ..svc
            }
        } else {
            svc
        },
        _ => svc,
    }
}

/// What the caller is told to do when `event` arrives.
pub open spec fn poll_action(svc: SvcView, event: PollEvent) -> PollAction {
    match event {
        PollEvent::Tick => if can_read(svc.status) {
            PollAction::Read
        } else {
            PollAction::Continue
        },
        PollEvent::Payload(bytes) => if is_reading(svc, bytes@) {
            PollAction::Forward {
                centi: decoded_temp(bytes@.subrange(0, PAYLOAD_LEN as int)) as i32,
            }
        } else if can_read(svc.status) {
            PollAction::Reject(DecodeError::InvalidPayloadLength)
        } else {
            PollAction::Continue
        },
        PollEvent::Cancelled => PollAction::Shutdown,
        _ => PollAction::Continue,
    }
}

/// The status cell after all of `events`, in order.
pub open spec fn poll_run(svc: SvcView, events: Seq<PollEvent>) -> SvcView
    decreases events.len(),
{
    if events.len() == 0 {
        svc
    } else {
        poll_step(poll_run(svc, events.drop_last()), events.last())
    }
}

/// Takes one event of the polling loop, updates the status cell and says
/// what to do next. A tick asks for a read once the service is connected; a
/// whole payload makes the service running, sets the temperature and is
/// forwarded; a failed read changes nothing, and neither does a short one,
/// which is rejected; cancellation ends the loop.
pub fn poll(svc: &mut Svc, event: PollEvent) -> (action: PollAction)
    ensures
        final(svc)@ == poll_step(old(svc)@, event),
        action == poll_action(old(svc)@, event),
{
    let status = svc.get_status();
    let connected = match status {
        SvcStatus::Connected => true,
        SvcStatus::Running => true,
        _ => false,
    };
    match event {
        PollEvent::ProbeFound => {
            if let SvcStatus::Discovering = status {
                svc.set_status(SvcStatus::Connecting);
            }
            PollAction::Continue
        },
        PollEvent::SessionReady => {
            if let SvcStatus::Connecting = status {
                svc.set_status(SvcStatus::Connected);
            }
            PollAction::Continue
        },
        PollEvent::Tick => {
            if connected {
                PollAction::Read
            } else {
                PollAction::Continue
            }
        },
        PollEvent::Payload(bytes) => {
            if !connected {
                return PollAction::Continue;
            }
            match RawPayload::from_bytes(bytes.as_slice()) {
                Ok(payload) => {
                    let centi = decode(&payload);
                    svc.set_status(SvcStatus::Running);
                    svc.set_raw_temp(centi);
                    PollAction::Forward { centi }
                },
                Err(e) => PollAction::Reject(e),
            }
        },
        PollEvent::ReadFailed => PollAction::Continue,
        PollEvent::Cancelled => PollAction::Shutdown,
    }
}

/// Records in the status cell how the latest archival went: `stored` for a
/// push that went through, with or without destination, and not `stored`
/// for an upload that failed.
pub fn record_archival(svc: &mut Svc, stored: bool)
    ensures
        final(svc)@ == (SvcView {
            s3_status: if stored {
                S3Status::Writing
            } else {
                S3Status::Error
            },
            ..old(svc)@
        }),
{
    svc.set_s3_status(S3Status::after_push(stored));
}

/// No event moves the service back: a stage, once reached, is kept or
/// followed by a later one, and no event skips a stage on the way to
/// connected.
pub proof fn lemma_no_way_back(svc: SvcView, event: PollEvent)
    ensures
        poll_step(svc, event).status.rank() >= svc.status.rank(),
        poll_step(svc, event).status.rank() <= svc.status.rank() + 1,
        poll_step(svc, event).s3_status == svc.s3_status,
{
}

/// Over any run of events the stage never goes back.
pub proof fn lemma_stages_in_order(svc: SvcView, events: Seq<PollEvent>)
    ensures
        poll_run(svc, events).status.rank() >= svc.status.rank(),
        poll_run(svc, events).s3_status == svc.s3_status,
    decreases events.len(),
{
    if events.len() > 0 {
        lemma_stages_in_order(svc, events.drop_last());
        lemma_no_way_back(poll_run(svc, events.drop_last()), events.last());
    }
}

/// A failed read is soft: it changes neither stage nor temperature, and the
/// loop goes on. The same holds of a read that brought too few bytes.
pub proof fn lemma_failed_read_is_soft(svc: SvcView, bytes: Vec<u8>)
    requires
        bytes@.len() < PAYLOAD_LEN,
    ensures
        poll_step(svc, PollEvent::ReadFailed) == svc,
        poll_action(svc, PollEvent::ReadFailed) == PollAction::Continue,
        poll_step(svc, PollEvent::Payload(bytes)) == svc,
        poll_action(svc, PollEvent::Payload(bytes)) != PollAction::Shutdown,
        !(poll_action(svc, PollEvent::Payload(bytes)) is Forward),
{
}

/// Every forwarded temperature is the one the status cell shows, and the
/// service is running once it was forwarded.
pub proof fn lemma_forward_matches_status(svc: SvcView, event: PollEvent)
    requires
        poll_action(svc, event) is Forward,
    ensures
        poll_step(svc, event).status == SvcStatus::Running,
        poll_action(svc, event) == (PollAction::Forward {
            centi: poll_step(svc, event).raw_temp as i32,
        }),
        -2000 <= poll_step(svc, event).raw_temp <= 38955,
{
    match event {
        PollEvent::Payload(bytes) => {
            crate::payload::lemma_raw_field_range(bytes@.subrange(0, PAYLOAD_LEN as int), 0);
        },
        _ => {},
    }
}

} // verus!
