//! The controller session: one device, its resolved interface and endpoints,
//! and the claim on the interface.
//!
//! A session is idle whenever the caller holds it. Every operation takes the
//! session and returns a [`Progress`]: either the operation is over and the
//! session comes back with the result, or a request is to be performed, and
//! the [`Exchange`] that comes with it keeps the session until the reply is
//! in. So no second operation can start while one is under way, and no reply
//! can arrive that nobody waits for.

use vstd::prelude::*;
use crate::descriptor::Configuration;
use crate::error::{classify_claim_fault, classify_transfer_fault, HubError};
use crate::packet::{
    color_group_packet, final_packet, init_packet, is_message, CommandPacket, MODE_STATIC,
};
use crate::protocol::{
    color_sequence, lemma_color_sequence_holds_messages, opened, ExchangeView, Outcome, Pending,
    ProgressView, Scope, SessionView, COLOR_SEQUENCE_LEN, GROUPS_PER_MESSAGE,
};
use crate::resolver::resolve;
use crate::transport::{Reply, Request, READ_CAPACITY, TRANSFER_TIMEOUT_MS};

verus! {

/// A session with the hub, idle.
#[derive(Debug, PartialEq, Eq)]
pub struct ControllerSession {
    interface: u8,
    read_address: u8,
    write_address: u8,
    claimed: bool,
}

/// An operation of a session that waits for the reply to its last request.
#[derive(Debug, PartialEq, Eq)]
pub struct Exchange {
    session: ControllerSession,
    pending: Pending,
    scope: Scope,
}

/// Where an operation stands.
#[derive(Debug, PartialEq, Eq)]
pub enum Progress {
    /// Perform the request, then hand the reply to the exchange.
    Perform(Exchange, Request),
    /// The operation is over: the session is back, with the result.
    Finished(ControllerSession, Result<Outcome, HubError>),
}

impl View for ControllerSession {
    type V = SessionView;

    closed spec fn view(&self) -> SessionView {
        SessionView {
            interface: self.interface,
            read_address: self.read_address,
            write_address: self.write_address,
            claimed: self.claimed,
        }
    }
}

impl View for Exchange {
    type V = ExchangeView;

    closed spec fn view(&self) -> ExchangeView {
        ExchangeView { session: self.session@, pending: self.pending, scope: self.scope }
    }
}

impl View for Progress {
    type V = ProgressView;

    open spec fn view(&self) -> ProgressView {
        match *self {
            Progress::Perform(exchange, request) => ProgressView::Perform(exchange@, request@),
            Progress::Finished(session, result) => ProgressView::Finished(session@, result),
        }
    }
}

/// The packet of a step of the colour sequence.
fn color_sequence_packet(step: u8) -> (packet: CommandPacket)
    requires
        step < COLOR_SEQUENCE_LEN,
    ensures
        packet@ == color_sequence(step as int),
        is_message(packet@),
{
    proof {
        lemma_color_sequence_holds_messages(step as int);
    }
    if step == 0 {
        init_packet()
    } else if step <= 8 {
        color_group_packet(
            2 * (step - 1),
            GROUPS_PER_MESSAGE,
            MODE_STATIC,
            0,
            127,
            255,
            255,
            127,
            0,
        )
    } else {
        final_packet()
    }
}

impl ControllerSession {
    /// Opens a session on a device, given the device's active configuration:
    /// resolves the interface and the endpoints, and claims nothing yet. A
    /// device without an active configuration cannot be opened.
    pub fn open(active_configuration: Option<&Configuration>) -> (session: Result<
        ControllerSession,
        HubError,
    >)
        ensures
            match active_configuration {
                Some(configuration) => session matches Ok(opened_session) && opened_session@
                    == opened(configuration@),
                None => session matches Err(error) && error == HubError::ConfigurationUnavailable,
            },
    {
        match active_configuration {
            Some(configuration) => {
                let (interface, read_address, write_address) = resolve(configuration);
                Ok(ControllerSession { interface, read_address, write_address, claimed: false })
            },
            None => Err(HubError::ConfigurationUnavailable),
        }
    }

    /// The number of the selected interface.
    pub fn interface(&self) -> (interface: u8)
        ensures
            interface == self@.interface,
    {
        self.interface
    }

    /// The address of the endpoint the session reads from.
    pub fn read_address(&self) -> (address: u8)
        ensures
            address == self@.read_address,
    {
        self.read_address
    }

    /// The address of the endpoint the session writes to.
    pub fn write_address(&self) -> (address: u8)
        ensures
            address == self@.write_address,
    {
        self.write_address
    }

    /// Whether the session holds the claim on its interface.
    pub fn is_claimed(&self) -> (claimed: bool)
        ensures
            claimed == self@.claimed,
    {
        self.claimed
    }

    /// Starts to claim the interface. A session that holds the claim already
    /// gets `InterfaceUnavailable` at once.
    pub fn claim(self) -> (progress: Progress)
        ensures
            progress@ == self@.claim(),
            progress@.orderly(),
    {
        if self.claimed {
            Progress::Finished(self, Err(HubError::InterfaceUnavailable))
        } else {
            self.begin_claim(Scope::Operation)
        }
    }

    /// Starts to release the interface. A session that holds no claim gets
    /// `NotClaimed` at once.
    pub fn release(self) -> (progress: Progress)
        ensures
            progress@ == self@.release(),
            progress@.orderly(),
    {
        if self.claimed {
            self.begin_release(None, Scope::Operation)
        } else {
            Progress::Finished(self, Err(HubError::NotClaimed))
        }
    }

    /// Starts one transaction: the packet is written to the hub, then the
    /// hub's acknowledgement is read. A session that holds no claim gets
    /// `NotClaimed` at once.
    pub fn transact(self, packet: CommandPacket) -> (progress: Progress)
        ensures
            progress@ == self@.transact(packet@),
            progress@.orderly(),
    {
        proof {
            use_type_invariant(&packet);
        }
        if self.claimed {
            let request = self.write(packet);
            Progress::Perform(
                Exchange {
                    session: self,
                    pending: Pending::Write { next_step: COLOR_SEQUENCE_LEN },
                    scope: Scope::Operation,
                },
                request,
            )
        } else {
            Progress::Finished(self, Err(HubError::NotClaimed))
        }
    }

    /// Starts to set the colour of all LED groups: ten transactions, each
    /// begun when the one before has succeeded. A session that holds no claim
    /// gets `NotClaimed` at once. The colour asked for is accepted and does
    /// not enter the packets, whose colour stops are fixed.
    pub fn set_color(self, r: u8, g: u8, b: u8) -> (progress: Progress)
        ensures
            progress@ == self@.set_color(r, g, b),
            progress@.orderly(),
    {
        if self.claimed {
            self.begin_color(r, g, b, Scope::Operation)
        } else {
            Progress::Finished(self, Err(HubError::NotClaimed))
        }
    }

    /// Starts a whole run on the hub: claim the interface, set the colour,
    /// release the interface. Once the claim is granted the release is asked
    /// for whatever becomes of the colour, and the first error is the one
    /// reported. A session that holds the claim already gets
    /// `InterfaceUnavailable` at once.
    pub fn light(self, r: u8, g: u8, b: u8) -> (progress: Progress)
        ensures
            progress@ == self@.light(r, g, b),
            progress@.orderly(),
    {
        if self.claimed {
            Progress::Finished(self, Err(HubError::InterfaceUnavailable))
        } else {
            self.begin_claim(Scope::Lifecycle { r, g, b })
        }
    }

    /// The interrupt write of a packet to the session's write endpoint.
    fn write(&self, packet: CommandPacket) -> (request: Request)
        ensures
            request@ == self@.write_request(packet@),
    {
        Request::WriteInterrupt {
            endpoint: self.write_address,
            packet,
            timeout_ms: TRANSFER_TIMEOUT_MS,
        }
    }

    /// The interrupt read from the session's read endpoint.
    fn read(&self) -> (request: Request)
        ensures
            request@ == self@.read_request(),
    {
        Request::ReadInterrupt {
            endpoint: self.read_address,
            capacity: READ_CAPACITY,
            timeout_ms: TRANSFER_TIMEOUT_MS,
        }
    }

    /// A claim under way.
    fn begin_claim(self, scope: Scope) -> (progress: Progress)
        requires
            !self@.claimed,
        ensures
            progress@ == self@.begin_claim(scope),
            progress@.orderly(),
    {
        let interface = self.interface;
        Progress::Perform(
            Exchange { session: self, pending: Pending::Detach, scope },
            Request::DetachKernelDriver { interface },
        )
    }

    /// A release under way.
    fn begin_release(self, earlier: Option<HubError>, scope: Scope) -> (progress: Progress)
        ensures
            progress@ == self@.begin_release(earlier, scope),
            progress@.orderly(),
    {
        let interface = self.interface;
        let mut session = self;
        session.claimed = false;
        Progress::Perform(
            Exchange { session, pending: Pending::Release { earlier }, scope },
            Request::ReleaseInterface { interface },
        )
    }

    /// A colour setting under way.
    fn begin_color(self, r: u8, g: u8, b: u8, scope: Scope) -> (progress: Progress)
        requires
            self@.claimed,
        ensures
            progress@ == self@.begin_color(r, g, b, scope),
            progress@.orderly(),
    {
        let _ = (r, g, b);
        let request = self.write(color_sequence_packet(0));
        Progress::Perform(
            Exchange { session: self, pending: Pending::Write { next_step: 1 }, scope },
            request,
        )
    }

    /// What follows the last transfer of an operation.
    fn end_transfers(self, scope: Scope, result: Result<Outcome, HubError>) -> (progress: Progress)
        ensures
            progress@ == self@.end_transfers(scope, result),
            progress@.orderly(),
    {
        match scope {
            Scope::Operation => Progress::Finished(self, result),
            Scope::Lifecycle { .. } => {
                let earlier = match result {
                    Ok(_) => None,
                    Err(error) => Some(error),
                };
                self.begin_release(earlier, scope)
            },
        }
    }
}

impl Exchange {
    /// Every exchange is orderly: what it waits on fits the claim.
    #[verifier::type_invariant]
    pub open spec fn orderly(self) -> bool {
        self@.orderly()
    }

    /// Takes the reply to the pending request and says what follows: the next
    /// request, or the end of the operation.
    pub fn resume(self, reply: Reply) -> (progress: Progress)
        ensures
            progress@ == self@.resume(reply),
            progress@.orderly(),
    {
        proof {
            use_type_invariant(&self);
        }
        let Exchange { session, pending, scope } = self;
        match pending {
            Pending::Detach => {
                let interface = session.interface;
                Progress::Perform(
                    Exchange { session, pending: Pending::Claim, scope },
                    Request::ClaimInterface { interface },
                )
            },
            Pending::Claim => match reply {
                Reply::Completed { .. } => {
                    let mut session = session;
                    session.claimed = true;
                    match scope {
                        Scope::Operation => Progress::Finished(session, Ok(Outcome::Claimed)),
                        Scope::Lifecycle { r, g, b } => session.begin_color(r, g, b, scope),
                    }
                },
                Reply::Failed { fault } => Progress::Finished(
                    session,
                    Err(classify_claim_fault(fault)),
                ),
            },
            Pending::Release { earlier } => {
                let result = match earlier {
                    Some(error) => Err(error),
                    None => match reply {
                        Reply::Completed { .. } => Ok(Outcome::Released),
                        Reply::Failed { fault } => Err(classify_transfer_fault(fault)),
                    },
                };
                Progress::Finished(session, result)
            },
            Pending::Write { next_step } => match reply {
                Reply::Completed { .. } => {
                    let request = session.read();
                    Progress::Perform(
                        Exchange { session, pending: Pending::Read { next_step }, scope },
                        request,
                    )
                },
                Reply::Failed { fault } => session.end_transfers(
                    scope,
                    Err(classify_transfer_fault(fault)),
                ),
            },
            Pending::Read { next_step } => match reply {
                Reply::Completed { transferred } => {
                    if next_step < COLOR_SEQUENCE_LEN {
                        let request = session.write(color_sequence_packet(next_step));
                        Progress::Perform(
                            Exchange {
                                session,
                                pending: Pending::Write { next_step: next_step + 1 },
                                scope,
                            },
                            request,
                        )
                    } else {
                        session.end_transfers(
                            scope,
                            Ok(Outcome::Acknowledged { bytes_read: transferred }),
                        )
                    }
                },
                Reply::Failed { fault } => session.end_transfers(
                    scope,
                    Err(classify_transfer_fault(fault)),
                ),
            },
        }
    }
}

} // verus!
