//! Discovery: which of the peripherals that advertise nearby is the probe,
//! and how a scan ends.
//!
//! The scan itself belongs to the caller. It reports what the adapter saw as
//! [`ScanEvent`]s, one at a time, and does what the returned [`ScanAction`]
//! says.

use vstd::prelude::*;

verus! {

/// The vendor's company identifier in the manufacturer data of a probe's
/// advertisement.
pub const VENDOR_ID: u16 = 0x09C7;

/// Time to let a newly seen peripheral settle before its advertisement is
/// inspected, in milliseconds: its manufacturer data is filled in late.
pub const SETTLE_DELAY_MS: u64 = 2000;

/// What one peripheral advertises, as the adapter reports it.
#[derive(Debug)]
pub struct Advertisement {
    /// The peripheral's address.
    pub address: u64,
    /// The company identifiers that key its manufacturer data; `None` where
    /// it advertises no manufacturer data at all.
    pub manufacturer_ids: Option<Vec<u16>>,
    /// The identifiers of the services it advertises.
    pub services: Vec<u128>,
}

/// An advertisement is a probe's if its manufacturer data has an entry under
/// the vendor's identifier.
pub open spec fn is_probe(advert: Advertisement) -> bool {
    advert.manufacturer_ids matches Some(ids) && ids@.contains(VENDOR_ID)
}

/// A discovered probe. Only the finder makes one, and only from an
/// advertisement that names the vendor; it does not change afterwards.
#[derive(Debug)]
pub struct PeripheralHandle {
    advert: Advertisement,
}

impl View for PeripheralHandle {
    type V = Advertisement;

    closed spec fn view(&self) -> Advertisement {
        self.advert
    }
}

impl PeripheralHandle {
    #[verifier::type_invariant]
    spec fn names_vendor(&self) -> bool {
        is_probe(self.advert)
    }

    /// The probe's address.
    pub fn address(&self) -> (address: u64)
        ensures
            address == self@.address,
            is_probe(self@),
    {
        proof {
            use_type_invariant(self);
        }
        self.advert.address
    }

    /// The services the probe advertised when it was found.
    pub fn services(&self) -> (services: &Vec<u128>)
        ensures
            services@ == self@.services@,
    {
        &self.advert.services
    }
}

/// Why no probe was found.
#[derive(Clone, Copy, Debug, PartialEq, Eq, Structural)]
pub enum DiscoverError {
    /// The scan ended without a probe.
    DiscoveryFailed,
    /// The scan was cancelled before a probe was found.
    Cancelled,
}

/// What happened during a scan.
#[derive(Debug)]
pub enum ScanEvent {
    /// The adapter saw a peripheral for the first time.
    Seen { address: u64 },
    /// The settle delay of a peripheral is over; this is what it advertises.
    Inspected(Advertisement),
    /// The adapter's stream of events ended.
    Ended,
    /// The cancellation signal fired.
    Cancelled,
}

/// What the caller does next.
#[derive(Debug)]
pub enum ScanAction {
    /// Wait for the next event.
    Listen,
    /// Wait `millis` milliseconds, then read the advertisement of the
    /// peripheral at `address` and report it as [`ScanEvent::Inspected`].
    /// Other events may be reported meanwhile.
    Settle { address: u64, millis: u64 },
    /// The scan is over: this is the probe.
    Found(PeripheralHandle),
    /// The scan is over without a probe.
    Fail(DiscoverError),
    /// The scan was over before this event; the event changes nothing.
    Halt,
}

/// How far a scan has come.
#[derive(Clone, Copy, Debug, PartialEq, Eq, Structural)]
pub enum ScanState {
    /// Still looking.
    Scanning,
    /// A probe was found.
    Found,
    /// The scan failed.
    Failed(DiscoverError),
}

impl ScanEvent {
    /// The event ends a scan that is still looking: it brings a probe, the
    /// end of the stream or the cancellation.
    pub open spec fn decisive(self) -> bool {
        match self {
            ScanEvent::Seen { .. } => false,
            ScanEvent::Inspected(advert) => is_probe(advert),
            ScanEvent::Ended => true,
            ScanEvent::Cancelled => true,
        }
    }
}

impl ScanState {
    /// The state after `event`. A scan that is over stays as it is.
    pub open spec fn step(self, event: ScanEvent) -> ScanState {
        match self {
            ScanState::Scanning => match event {
                ScanEvent::Seen { .. } => ScanState::Scanning,
                ScanEvent::Inspected(advert) => if is_probe(advert) {
                    ScanState::Found
                } else {
                    ScanState::Scanning
                },
                ScanEvent::Ended => ScanState::Failed(DiscoverError::DiscoveryFailed),
                ScanEvent::Cancelled => ScanState::Failed(DiscoverError::Cancelled),
            },
            _ => self,
        }
    }

    /// The state after all of `events`, in order.
    pub open spec fn run(self, events: Seq<ScanEvent>) -> ScanState
        decreases events.len(),
    {
        if events.len() == 0 {
            self
        } else {
            self.run(events.drop_last()).step(events.last())
        }
    }
}

/// What the action for `event` in `state` must be.
pub open spec fn scan_action_ok(state: ScanState, event: ScanEvent, action: ScanAction) -> bool {
    match state {
        ScanState::Scanning => match event {
            ScanEvent::Seen { address } => action == (ScanAction::Settle {
                address,
                millis: SETTLE_DELAY_MS,
            }),
            ScanEvent::Inspected(advert) => if is_probe(advert) {
                action matches ScanAction::Found(handle) && handle@ == advert
            } else {
                action is Listen
            },
            ScanEvent::Ended => action == ScanAction::Fail(DiscoverError::DiscoveryFailed),
            ScanEvent::Cancelled => action == ScanAction::Fail(DiscoverError::Cancelled),
        },
        _ => action is Halt,
    }
}

/// Whether the advertisement is a probe's.
pub fn matches_vendor(advert: &Advertisement) -> (found: bool)
    ensures
        found == is_probe(*advert),
{
    match &advert.manufacturer_ids {
        None => false,
        Some(ids) => {
            let mut i: usize = 0;
            while i < ids.len()
                invariant
                    advert.manufacturer_ids == Some(*ids),
                    i <= ids@.len(),
                    forall|j: int| 0 <= j < i ==> ids@[j] != VENDOR_ID,
                decreases ids@.len() - i,
            {
                if ids[i] == VENDOR_ID {
                    assert(ids@[i as int] == VENDOR_ID);
                    return true;
                }
                i += 1;
            }
            false
        },
    }
}

/// The scan for the probe, as a state machine.
pub struct CombustionFinder {
    state: ScanState,
}

impl View for CombustionFinder {
    type V = ScanState;

    closed spec fn view(&self) -> ScanState {
        self.state
    }
}

impl CombustionFinder {
    /// A scan that is about to start.
    pub fn new() -> (finder: CombustionFinder)
        ensures
            finder@ == ScanState::Scanning,
    {
        CombustionFinder { state: ScanState::Scanning }
    }

    /// How far the scan has come.
    pub fn state(&self) -> (state: ScanState)
        ensures
            state == self@,
    {
        self.state
    }

    /// Takes one event of the scan and says what to do next. The first
    /// advertisement that names the vendor ends the scan with a handle; the
    /// end of the stream or the cancellation ends it with an error if it
    /// comes first.
    pub fn discover(&mut self, event: ScanEvent) -> (action: ScanAction)
        ensures
            final(self)@ == old(self)@.step(event),
            scan_action_ok(old(self)@, event, action),
    {
        match self.state {
            ScanState::Scanning => match event {
                ScanEvent::Seen { address } => ScanAction::Settle {
                    address,
                    millis: SETTLE_DELAY_MS,
                },
                ScanEvent::Inspected(advert) => {
                    if matches_vendor(&advert) {
                        self.state = ScanState::Found;
                        ScanAction::Found(PeripheralHandle { advert })
                    } else {
                        ScanAction::Listen
                    }
                },
                ScanEvent::Ended => {
                    self.state = ScanState::Failed(DiscoverError::DiscoveryFailed);
                    ScanAction::Fail(DiscoverError::DiscoveryFailed)
                },
                ScanEvent::Cancelled => {
                    self.state = ScanState::Failed(DiscoverError::Cancelled);
                    ScanAction::Fail(DiscoverError::Cancelled)
                },
            },
            _ => ScanAction::Halt,
        }
    }
}

/// A scan that is over stays over, whatever is reported afterwards.
pub proof fn lemma_scan_settled(state: ScanState, events: Seq<ScanEvent>)
    requires
        state != ScanState::Scanning,
    ensures
        state.run(events) == state,
    decreases events.len(),
{
    if events.len() > 0 {
        lemma_scan_settled(state, events.drop_last());
    }
}

/// As long as nothing decisive is reported, the scan goes on.
pub proof fn lemma_scan_goes_on(events: Seq<ScanEvent>)
    requires
        forall|i: int| 0 <= i < events.len() ==> !events[i].decisive(),
    ensures
        ScanState::Scanning.run(events) == ScanState::Scanning,
    decreases events.len(),
{
    if events.len() > 0 {
        lemma_scan_goes_on(events.drop_last());
    }
}

/// Running a scan over two stretches of events is running it over the first
/// and then, from where that ended, over the second.
pub proof fn lemma_scan_run_split(state: ScanState, first: Seq<ScanEvent>, second: Seq<ScanEvent>)
    ensures
        state.run(first + second) == state.run(first).run(second),
    decreases second.len(),
{
    if second.len() == 0 {
        assert(first + second =~= first);
    } else {
        lemma_scan_run_split(state, first, second.drop_last());
        assert((first + second).drop_last() =~= first + second.drop_last());
    }
}

/// Cancellation before a probe is found: if the cancellation is reported
/// while the scan is still looking, the scan fails as cancelled, and nothing
/// reported afterwards, a probe's advertisement included, turns that into a
/// handle.
pub proof fn lemma_cancel_before_probe(before: Seq<ScanEvent>, after: Seq<ScanEvent>)
    requires
        forall|i: int| 0 <= i < before.len() ==> !before[i].decisive(),
    ensures
        ScanState::Scanning.run(before.push(ScanEvent::Cancelled) + after) == ScanState::Failed(
            DiscoverError::Cancelled,
        ),
        forall|action: ScanAction|
            scan_action_ok(
                ScanState::Scanning.run(before),
                ScanEvent::Cancelled,
                action,
            ) ==> action == ScanAction::Fail(DiscoverError::Cancelled),
        forall|k: int, action: ScanAction|
            0 <= k < after.len() && #[trigger] scan_action_ok(
                ScanState::Scanning.run(before.push(ScanEvent::Cancelled) + after.take(k)),
                after[k],
                action,
            ) ==> action is Halt,
{
    let cancelled = ScanState::Failed(DiscoverError::Cancelled);
    lemma_scan_goes_on(before);
    assert(before.push(ScanEvent::Cancelled).drop_last() =~= before);
    assert(ScanState::Scanning.run(before.push(ScanEvent::Cancelled)) == cancelled);
    assert forall|rest: Seq<ScanEvent>|
        #[trigger] ScanState::Scanning.run(before.push(ScanEvent::Cancelled) + rest)
            == cancelled by {
        lemma_scan_run_split(ScanState::Scanning, before.push(ScanEvent::Cancelled), rest);
        lemma_scan_settled(cancelled, rest);
    }
}


/// The first probe wins: if a probe's advertisement is reported while the
/// scan is still looking, the scan ends with a handle to that probe, and
/// neither the end of the stream nor a cancellation reported afterwards
/// takes it back.
pub proof fn lemma_first_probe_wins(
    before: Seq<ScanEvent>,
    advert: Advertisement,
    after: Seq<ScanEvent>,
)
    requires
        forall|i: int| 0 <= i < before.len() ==> !before[i].decisive(),
        is_probe(advert),
    ensures
        ScanState::Scanning.run(before.push(ScanEvent::Inspected(advert)) + after)
            == ScanState::Found,
        forall|action: ScanAction|
            scan_action_ok(
                ScanState::Scanning.run(before),
                ScanEvent::Inspected(advert),
                action,
            ) ==> (action matches ScanAction::Found(handle) && handle@ == advert),
{
    let found = before.push(ScanEvent::Inspected(advert));
    lemma_scan_goes_on(before);
    assert(found.drop_last() =~= before);
    lemma_scan_run_split(ScanState::Scanning, found, after);
    lemma_scan_settled(ScanState::Found, after);
}

} // verus!
