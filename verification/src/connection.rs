//! Connection: a bounded number of attempts, then the choice of the two
//! services a session needs.
//!
//! As with discovery, the radio belongs to the caller, which reports
//! [`LinkEvent`]s and carries out [`LinkAction`]s.

use crate::finder::{PeripheralHandle, SETTLE_DELAY_MS};
use crate::payload::{decode, decoded_temp, RawPayload, PAYLOAD_LEN};
use vstd::prelude::*;

verus! {

/// Attempts to connect that may follow the first one.
pub const RETRY_BUDGET: u8 = 2;

/// Attempts to connect in all.
pub const MAX_ATTEMPTS: u8 = 3;

/// Identifier of the probe-status service,
/// `00000100-CAAB-3792-3D44-97AE51C1407A`.
pub const PROBE_STATUS_SERVICE: u128 = 0x00000100_CAAB_3792_3D44_97AE51C1407A;

/// Identifier of the auxiliary UART service,
/// `6E400001-B5A3-F393-E0A9-E50E24DCCA9E`.
pub const UART_SERVICE: u128 = 0x6E400001_B5A3_F393_E0A9_E50E24DCCA9E;

/// Why no session came about.
#[derive(Clone, Copy, Debug, PartialEq, Eq, Structural)]
pub enum ConnectError {
    /// Every attempt to connect failed.
    ConnectFailed,
    /// The peripheral lacks one of the two services.
    ServicesMissing,
}

/// `at` is the place of the first `wanted` in `services`.
pub open spec fn is_first_position(services: Seq<u128>, wanted: u128, at: int) -> bool {
    &&& 0 <= at < services.len()
    &&& services[at] == wanted
    &&& forall|j: int| 0 <= j < at ==> services[j] != wanted
}

/// Both services of a session occur in `services`.
pub open spec fn has_both_services(services: Seq<u128>) -> bool {
    services.contains(PROBE_STATUS_SERVICE) && services.contains(UART_SERVICE)
}

/// A session with a connected probe: the peripheral's services and, among
/// them, the places of the two that the pipeline uses. There is no session
/// without both.
#[derive(Debug)]
pub struct ServiceSession {
    services: Vec<u128>,
    probe_status: usize,
    uart: usize,
}

/// A session, as contracts see it.
pub struct SessionView {
    /// The peripheral's services, in the order in which it listed them.
    pub services: Seq<u128>,
    /// Place of the probe-status service in that list.
    pub probe_status: int,
    /// Place of the UART service in that list.
    pub uart: int,
}

impl SessionView {
    /// Both places lie in the list and hold the services they are named
    /// after.
    pub open spec fn complete(self) -> bool {
        &&& 0 <= self.probe_status < self.services.len()
        &&& 0 <= self.uart < self.services.len()
        &&& self.services[self.probe_status] == PROBE_STATUS_SERVICE
        &&& self.services[self.uart] == UART_SERVICE
    }
}

impl View for ServiceSession {
    type V = SessionView;

    closed spec fn view(&self) -> SessionView {
        SessionView {
            services: self.services@,
            probe_status: self.probe_status as int,
            uart: self.uart as int,
        }
    }
}

impl ServiceSession {
    #[verifier::type_invariant]
    spec fn holds_both(&self) -> bool {
        self@.complete()
    }

    /// Place of the probe-status service among the peripheral's services.
    pub fn probe_status(&self) -> (at: usize)
        ensures
            at == self@.probe_status,
            self@.complete(),
    {
        proof {
            use_type_invariant(self);
        }
        self.probe_status
    }

    /// Place of the UART service among the peripheral's services.
    pub fn uart(&self) -> (at: usize)
        ensures
            at == self@.uart,
            self@.complete(),
    {
        proof {
            use_type_invariant(self);
        }
        self.uart
    }
}

/// The place of the first `wanted` in `services`.
fn find_service(services: &Vec<u128>, wanted: u128) -> (at: Option<usize>)
    ensures
        match at {
            Some(i) => is_first_position(services@, wanted, i as int),
            None => !services@.contains(wanted),
        },
{
    let mut i: usize = 0;
    while i < services.len()
        invariant
            i <= services@.len(),
            forall|j: int| 0 <= j < i ==> services@[j] != wanted,
        decreases services@.len() - i,
    {
        if services[i] == wanted {
            return Some(i);
        }
        i += 1;
    }
    None
}

/// Picks the two services of a session out of the services a peripheral
/// lists. The session comes about exactly if both are listed; it then points
/// at the first listing of each.
pub fn select_services(services: Vec<u128>) -> (session: Result<ServiceSession, ConnectError>)
    ensures
        match session {
            Ok(s) => {
                &&& has_both_services(services@)
                &&& s@.services == services@
                &&& is_first_position(services@, PROBE_STATUS_SERVICE, s@.probe_status)
                &&& is_first_position(services@, UART_SERVICE, s@.uart)
            },
            Err(e) => !has_both_services(services@) && e == ConnectError::ServicesMissing,
        },
{
    let probe_status = find_service(&services, PROBE_STATUS_SERVICE);
    let uart = find_service(&services, UART_SERVICE);
    match (probe_status, uart) {
        (Some(probe_status), Some(uart)) => Ok(ServiceSession { services, probe_status, uart }),
        _ => Err(ConnectError::ServicesMissing),
    }
}


/// How far a connection has come.
#[derive(Clone, Copy, Debug, PartialEq, Eq, Structural)]
pub enum LinkState {
    /// Nothing was done yet.
    Idle,
    /// The settle delay before the first attempt is running.
    Settling,
    /// An attempt to connect is under way, after `failures` failed ones.
    Connecting { failures: u8 },
    /// Connected; the peripheral's services are being listed.
    Enumerating,
    /// A session exists.
    Ready,
    /// No session came about.
    Failed(ConnectError),
    /// The connection was given up.
    Closed,
}

/// What happened to the connection.
#[derive(Debug)]
pub enum LinkEvent {
    /// The caller starts connecting and says whether the peripheral is
    /// connected already.
    Begin { connected: bool },
    /// The settle delay is over.
    Settled,
    /// The attempt to connect succeeded.
    Connected,
    /// The attempt to connect failed.
    ConnectFailed,
    /// The peripheral listed its services.
    Services(Vec<u128>),
}

/// What the caller does next.
#[derive(Clone, Copy, Debug, PartialEq, Eq, Structural)]
pub enum LinkAction {
    /// Wait `millis` milliseconds, then report [`LinkEvent::Settled`].
    Settle { millis: u64 },
    /// Try to connect, then report how it went.
    Connect,
    /// List the peripheral's services and report them.
    Enumerate,
    /// The session is there: start polling.
    Ready,
    /// Give up with this error.
    Fail(ConnectError),
    /// The event does not concern the connection as it stands: nothing to do.
    Wait,
}

impl LinkState {
    /// The state after `event`. An event that does not fit the state changes
    /// nothing.
    pub open spec fn step(self, event: LinkEvent) -> LinkState {
        match (self, event) {
            (LinkState::Idle, LinkEvent::Begin { connected }) => if connected {
                LinkState::Enumerating
            } else {
                LinkState::Settling
            },
            (LinkState::Settling, LinkEvent::Settled) => LinkState::Connecting { failures: 0 },
            (LinkState::Connecting { .. }, LinkEvent::Connected) => LinkState::Enumerating,
            (LinkState::Connecting { failures }, LinkEvent::ConnectFailed) => if failures
                < RETRY_BUDGET {
                LinkState::Connecting { failures: (failures + 1) as u8 }
            } else {
                LinkState::Failed(ConnectError::ConnectFailed)
            },
            (LinkState::Enumerating, LinkEvent::Services(services)) => if has_both_services(
                services@,
            ) {
                LinkState::Ready
            } else {
                LinkState::Failed(ConnectError::ServicesMissing)
            },
            _ => self,
        }
    }

    /// What the caller is told to do when `event` arrives in this state.
    pub open spec fn action(self, event: LinkEvent) -> LinkAction {
        match (self, event) {
            (LinkState::Idle, LinkEvent::Begin { connected }) => if connected {
                LinkAction::Enumerate
            } else {
                LinkAction::Settle { millis: SETTLE_DELAY_MS }
            },
            (LinkState::Settling, LinkEvent::Settled) => LinkAction::Connect,
            (LinkState::Connecting { .. }, LinkEvent::Connected) => LinkAction::Enumerate,
            (LinkState::Connecting { failures }, LinkEvent::ConnectFailed) => if failures
                < RETRY_BUDGET {
                LinkAction::Connect
            } else {
                LinkAction::Fail(ConnectError::ConnectFailed)
            },
            (LinkState::Enumerating, LinkEvent::Services(services)) => if has_both_services(
                services@,
            ) {
                LinkAction::Ready
            } else {
                LinkAction::Fail(ConnectError::ServicesMissing)
            },
            _ => LinkAction::Wait,
        }
    }

    /// The state after all of `events`, in order.
    pub open spec fn run(self, events: Seq<LinkEvent>) -> LinkState
        decreases events.len(),
    {
        if events.len() == 0 {
            self
        } else {
            self.run(events.drop_last()).step(events.last())
        }
    }

    /// How often the caller is told to connect while `events` arrive.
    pub open spec fn attempts(self, events: Seq<LinkEvent>) -> nat
        decreases events.len(),
    {
        if events.len() == 0 {
            0
        } else {
            let earlier = events.drop_last();
            self.attempts(earlier) + if self.run(earlier).action(events.last())
                == LinkAction::Connect {
                1nat
            } else {
                0nat
            }
        }
    }

    /// The attempts to connect that may still come in this state.
    pub open spec fn attempts_left(self) -> nat {
        match self {
            LinkState::Idle => MAX_ATTEMPTS as nat,
            LinkState::Settling => MAX_ATTEMPTS as nat,
            LinkState::Connecting { failures } => if failures <= RETRY_BUDGET {
                (RETRY_BUDGET - failures) as nat
            } else {
                0
            },
            _ => 0,
        }
    }
}

/// `n` failed attempts in a row.
pub open spec fn failures_in_a_row(n: nat) -> Seq<LinkEvent> {
    Seq::new(n, |i: int| LinkEvent::ConnectFailed)
}

/// However the events fall, the attempts made and the attempts that may
/// still come never exceed what the state allowed at the start.
pub proof fn lemma_attempts_budget(state: LinkState, events: Seq<LinkEvent>)
    ensures
        state.attempts(events) + state.run(events).attempts_left() <= state.attempts_left(),
    decreases events.len(),
{
    if events.len() > 0 {
        lemma_attempts_budget(state, events.drop_last());
    }
}

/// No run of events makes a connection try more than three times.
pub proof fn lemma_at_most_three_attempts(events: Seq<LinkEvent>)
    ensures
        LinkState::Idle.attempts(events) <= MAX_ATTEMPTS,
{
    lemma_attempts_budget(LinkState::Idle, events);
}

/// The retry bound. While the first attempt and those that follow fail, the
/// first and the second failure are each answered by another attempt; the
/// third failure ends the connection with `ConnectFailed`, and whatever
/// fails after that is answered by nothing at all.
pub proof fn lemma_retry_bound(n: nat)
    ensures
        (LinkState::Connecting { failures: 0 }).run(failures_in_a_row(n)) == if n <= RETRY_BUDGET {
            LinkState::Connecting { failures: n as u8 }
        } else {
            LinkState::Failed(ConnectError::ConnectFailed)
        },
        (LinkState::Connecting { failures: 0 }).run(failures_in_a_row(n)).action(
            LinkEvent::ConnectFailed,
        ) == if n < RETRY_BUDGET {
            LinkAction::Connect
        } else if n == RETRY_BUDGET {
            LinkAction::Fail(ConnectError::ConnectFailed)
        } else {
            LinkAction::Wait
        },
    decreases n,
{
    if n > 0 {
        lemma_retry_bound((n - 1) as nat);
        assert(failures_in_a_row(n).drop_last() =~= failures_in_a_row((n - 1) as nat));
    }
}

/// A failed connection is final: whatever is reported afterwards, the state
/// stays failed and the caller is never told to connect again.
pub proof fn lemma_failure_is_final(error: ConnectError, events: Seq<LinkEvent>)
    ensures
        LinkState::Failed(error).run(events) == LinkState::Failed(error),
        LinkState::Failed(error).attempts(events) == 0,
    decreases events.len(),
{
    if events.len() > 0 {
        lemma_failure_is_final(error, events.drop_last());
    }
}

/// The connection to one probe as the program holds it; [`LinkState`] is
/// what contracts see of it.
enum Link {
    Idle,
    Settling,
    Connecting { failures: u8 },
    Enumerating,
    Ready(ServiceSession),
    Failed(ConnectError),
    Closed,
}

/// A discovered probe and the connection to it.
pub struct Combustion {
    handle: PeripheralHandle,
    link: Link,
}

impl View for Combustion {
    type V = LinkState;

    closed spec fn view(&self) -> LinkState {
        match self.link {
            Link::Idle => LinkState::Idle,
            Link::Settling => LinkState::Settling,
            Link::Connecting { failures } => LinkState::Connecting { failures },
            Link::Enumerating => LinkState::Enumerating,
            Link::Ready(_) => LinkState::Ready,
            Link::Failed(e) => LinkState::Failed(e),
            Link::Closed => LinkState::Closed,
        }
    }
}

impl Combustion {
    /// The probe this connection is for.
    pub closed spec fn peripheral(&self) -> PeripheralHandle {
        self.handle
    }

    /// The session, once there is one.
    pub closed spec fn session_view(&self) -> Option<SessionView> {
        match self.link {
            Link::Ready(session) => Some(session@),
            _ => None,
        }
    }

    /// A connection to `handle` on which nothing was done yet.
    pub fn new(handle: PeripheralHandle) -> (combustion: Combustion)
        ensures
            combustion@ == LinkState::Idle,
            combustion.peripheral() == handle,
            combustion.session_view() is None,
    {
        Combustion { handle, link: Link::Idle }
    }

    /// The probe this connection is for.
    pub fn handle(&self) -> (handle: &PeripheralHandle)
        ensures
            *handle == self.peripheral(),
    {
        &self.handle
    }

    /// How far the connection has come.
    pub fn state(&self) -> (state: LinkState)
        ensures
            state == self@,
    {
        match &self.link {
            Link::Idle => LinkState::Idle,
            Link::Settling => LinkState::Settling,
            Link::Connecting { failures } => LinkState::Connecting { failures: *failures },
            Link::Enumerating => LinkState::Enumerating,
            Link::Ready(_) => LinkState::Ready,
            Link::Failed(e) => LinkState::Failed(*e),
            Link::Closed => LinkState::Closed,
        }
    }

    /// The session. There is one exactly while the connection is ready.
    pub fn session(&self) -> (session: Option<&ServiceSession>)
        ensures
            session is Some <==> self@ == LinkState::Ready,
            match session {
                Some(s) => self.session_view() == Some(s@) && s@.complete(),
                None => self.session_view() is None,
            },
    {
        match &self.link {
            Link::Ready(session) => {
                let _ = session.probe_status();
                Some(session)
            },
            _ => None,
        }
    }

    /// Takes one event of the connection and says what to do next: settle,
    /// then up to three attempts, then the choice of the two services. A
    /// session comes about exactly if an attempt succeeds, or the peripheral
    /// was connected before, and both services are listed.
    pub fn connect(&mut self, event: LinkEvent) -> (action: LinkAction)
        ensures
            final(self)@ == old(self)@.step(event),
            action == old(self)@.action(event),
            final(self).peripheral() == old(self).peripheral(),
            match final(self).session_view() {
                Some(s) => if old(self)@ == LinkState::Ready {
                    old(self).session_view() == Some(s)
                } else {
                    &&& event matches LinkEvent::Services(services)
                    &&& s.services == services@
                    &&& is_first_position(services@, PROBE_STATUS_SERVICE, s.probe_status)
                    &&& is_first_position(services@, UART_SERVICE, s.uart)
                },
                None => final(self)@ != LinkState::Ready,
            },
    {
        match (&self.link, event) {
            (Link::Idle, LinkEvent::Begin { connected }) => {
                if connected {
                    self.link = Link::Enumerating;
                    LinkAction::Enumerate
                } else {
                    self.link = Link::Settling;
                    LinkAction::Settle { millis: SETTLE_DELAY_MS }
                }
            },
            (Link::Settling, LinkEvent::Settled) => {
                self.link = Link::Connecting { failures: 0 };
                LinkAction::Connect
            },
            (Link::Connecting { .. }, LinkEvent::Connected) => {
                self.link = Link::Enumerating;
                LinkAction::Enumerate
            },
            (Link::Connecting { failures }, LinkEvent::ConnectFailed) => {
                let failures: u8 = *failures;
                if failures < RETRY_BUDGET {
                    self.link = Link::Connecting { failures: failures + 1 };
                    LinkAction::Connect
                } else {
                    self.link = Link::Failed(ConnectError::ConnectFailed);
                    LinkAction::Fail(ConnectError::ConnectFailed)
                }
            },
            (Link::Enumerating, LinkEvent::Services(services)) => {
                match select_services(services) {
                    Ok(session) => {
                        self.link = Link::Ready(session);
                        LinkAction::Ready
                    },
                    Err(e) => {
                        self.link = Link::Failed(e);
                        LinkAction::Fail(e)
                    },
                }
            },
            _ => LinkAction::Wait,
        }
    }

    /// Decodes what a read of the status characteristic returned, in
    /// hundredths of a degree Celsius. There is a temperature exactly if a
    /// session exists and the read brought a whole payload.
    pub fn get_raw_temp(&self, read: &[u8]) -> (temp: Option<i32>)
        ensures
            temp is Some <==> self@ == LinkState::Ready && read@.len() >= PAYLOAD_LEN,
            temp matches Some(centi) ==> centi == decoded_temp(
                read@.subrange(0, PAYLOAD_LEN as int),
            ),
    {
        match &self.link {
            Link::Ready(_) => match RawPayload::from_bytes(read) {
                Ok(payload) => Some(decode(&payload)),
                Err(_) => None,
            },
            _ => None,
        }
    }

    /// Gives the connection up. The result says whether there is a link to
    /// take down: the caller then disconnects and drops the peripheral from
    /// the adapter's cache, and ignores what fails in doing so.
    pub fn disconnect(&mut self) -> (linked: bool)
        ensures
            final(self)@ == LinkState::Closed,
            linked == (old(self)@ == LinkState::Ready || old(self)@ == LinkState::Enumerating),
            final(self).peripheral() == old(self).peripheral(),
            final(self).session_view() is None,
    {
        let linked = match &self.link {
            Link::Ready(_) => true,
            Link::Enumerating => true,
            _ => false,
        };
        self.link = Link::Closed;
        linked
    }
}

} // verus!
