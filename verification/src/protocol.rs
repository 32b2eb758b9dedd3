//! The session protocol as mathematics: what a session asks of the USB stack,
//! and what it makes of each reply.
//!
//! The functions here are ghost code on mathematical values. The executable
//! session in [`crate::session`] is proved to follow them step by step, and
//! the laws in [`crate::laws`] are proved about them.

use vstd::prelude::*;
use crate::descriptor::InterfaceView;
use crate::error::{claim_error, transfer_error, HubError};
use crate::packet::{
    color_group_bytes, final_bytes, init_bytes, is_message, lemma_color_group_round_trip,
    MODE_STATIC,
};
use crate::resolver::resolved;
use crate::transport::{Reply, RequestView, READ_CAPACITY, TRANSFER_TIMEOUT_MS};

verus! {

/// Number of transactions that set the colour: one initialisation, eight
/// colour groups, one commit.
pub const COLOR_SEQUENCE_LEN: u8 = 10;

/// LED groups covered by each colour-group message of the sequence.
pub const GROUPS_PER_MESSAGE: u8 = 2;

/// A session as a mathematical value: the interface and endpoints resolved for
/// it, and whether it holds the claim on the interface.
pub struct SessionView {
    pub interface: u8,
    pub read_address: u8,
    pub write_address: u8,
    pub claimed: bool,
}

/// How far an operation reaches.
#[derive(Clone, Copy, Debug, PartialEq, Eq, Structural)]
pub enum Scope {
    /// One operation: a claim, a release, a transaction or a colour setting.
    Operation,
    /// A whole run on the hub: claim, set the colour asked for, release.
    Lifecycle { r: u8, g: u8, b: u8 },
}

/// The request a session waits on.
#[derive(Clone, Copy, Debug, PartialEq, Eq, Structural)]
pub enum Pending {
    /// Detaching the kernel driver; the claim comes next.
    Detach,
    /// Claiming the interface.
    Claim,
    /// Releasing the interface. `earlier` is the error of what went before
    /// the release, which is the one to report.
    Release { earlier: Option<HubError> },
    /// Writing a packet; its read comes next. `next_step` is the step of the
    /// colour sequence to go on with after this transaction, and
    /// `COLOR_SEQUENCE_LEN` where nothing follows.
    Write { next_step: u8 },
    /// Reading the acknowledgement of the packet just written.
    Read { next_step: u8 },
}

/// An operation in flight as a mathematical value.
pub struct ExchangeView {
    pub session: SessionView,
    pub pending: Pending,
    pub scope: Scope,
}

/// What a finished operation achieved.
#[derive(Clone, Copy, Debug, PartialEq, Eq, Structural)]
pub enum Outcome {
    /// The session now holds the claim on its interface.
    Claimed,
    /// The session gave its claim back.
    Released,
    /// The hub acknowledged the last packet with `bytes_read` bytes.
    Acknowledged { bytes_read: usize },
}

/// Where an operation stands, as a mathematical value.
pub enum ProgressView {
    /// The request is to be performed and its reply handed to the exchange.
    Perform(ExchangeView, RequestView),
    /// The operation is over; the session is idle again.
    Finished(SessionView, Result<Outcome, HubError>),
}

/// The session that `open` makes for a configuration: resolved and unclaimed.
pub open spec fn opened(interfaces: Seq<InterfaceView>) -> SessionView {
    SessionView {
        interface: resolved(interfaces).0,
        read_address: resolved(interfaces).1,
        write_address: resolved(interfaces).2,
        claimed: false,
    }
}

/// The packet of each step of the colour sequence: the initialisation, then
/// the groups at offsets 0, 2, .., 14 in static mode with the colour stops
/// (0, 127, 255) and (255, 127, 0), then the commit.
pub open spec fn color_sequence(step: int) -> Seq<u8> {
    if step <= 0 {
        init_bytes()
    } else if step <= 8 {
        color_group_bytes(
            (2 * (step - 1)) as u8,
            GROUPS_PER_MESSAGE,
            MODE_STATIC,
            0,
            127,
            255,
            255,
            127,
            0,
        )
    } else {
        final_bytes()
    }
}

/// Every packet of the colour sequence is a message of the protocol.
pub proof fn lemma_color_sequence_holds_messages(step: int)
    ensures
        is_message(color_sequence(step)),
{
    if 0 < step <= 8 {
        lemma_color_group_round_trip(
            (2 * (step - 1)) as u8,
            GROUPS_PER_MESSAGE,
            MODE_STATIC,
            0,
            127,
            255,
            255,
            127,
            0,
        );
    }
}

/// The error to report after a release that follows `result`.
pub open spec fn error_of(result: Result<Outcome, HubError>) -> Option<HubError> {
    match result {
        Ok(_) => None,
        Err(error) => Some(error),
    }
}

impl SessionView {
    /// The same session with the claim set or cleared.
    pub open spec fn with_claim(self, claimed: bool) -> SessionView {
        SessionView {
            interface: self.interface,
            read_address: self.read_address,
            write_address: self.write_address,
            claimed,
        }
    }

    /// The interrupt write of `data` to the session's write endpoint.
    pub open spec fn write_request(self, data: Seq<u8>) -> RequestView {
        RequestView::WriteInterrupt {
            endpoint: self.write_address,
            data,
            timeout_ms: TRANSFER_TIMEOUT_MS,
        }
    }

    /// The interrupt read from the session's read endpoint.
    pub open spec fn read_request(self) -> RequestView {
        RequestView::ReadInterrupt {
            endpoint: self.read_address,
            capacity: READ_CAPACITY,
            timeout_ms: TRANSFER_TIMEOUT_MS,
        }
    }

    /// A claim under way: it starts with the kernel driver's detachment.
    pub open spec fn begin_claim(self, scope: Scope) -> ProgressView {
        ProgressView::Perform(
            ExchangeView { session: self, pending: Pending::Detach, scope },
            RequestView::DetachKernelDriver { interface: self.interface },
        )
    }

    /// A release under way: the claim is gone from the moment the release is
    /// asked for.
    pub open spec fn begin_release(self, earlier: Option<HubError>, scope: Scope) -> ProgressView {
        ProgressView::Perform(
            ExchangeView {
                session: self.with_claim(false),
                pending: Pending::Release { earlier },
                scope,
            },
            RequestView::ReleaseInterface { interface: self.interface },
        )
    }

    /// A colour setting under way: it starts with the write of the first
    /// packet of the colour sequence. The colour asked for does not enter the
    /// packets.
    pub open spec fn begin_color(self, r: u8, g: u8, b: u8, scope: Scope) -> ProgressView {
        ProgressView::Perform(
            ExchangeView { session: self, pending: Pending::Write { next_step: 1 }, scope },
            self.write_request(color_sequence(0)),
        )
    }

    /// What follows the last transfer of an operation. A single operation is
    /// over with its result. A whole run goes on to the release, whatever the
    /// result, and keeps the error to report.
    pub open spec fn end_transfers(
        self,
        scope: Scope,
        result: Result<Outcome, HubError>,
    ) -> ProgressView {
        match scope {
            Scope::Operation => ProgressView::Finished(self, result),
            Scope::Lifecycle { .. } => self.begin_release(error_of(result), scope),
        }
    }

    /// Claiming: refused at once where the session holds the claim already.
    pub open spec fn claim(self) -> ProgressView {
        if self.claimed {
            ProgressView::Finished(self, Err(HubError::InterfaceUnavailable))
        } else {
            self.begin_claim(Scope::Operation)
        }
    }

    /// Releasing: refused at once where the session holds no claim.
    pub open spec fn release(self) -> ProgressView {
        if self.claimed {
            self.begin_release(None, Scope::Operation)
        } else {
            ProgressView::Finished(self, Err(HubError::NotClaimed))
        }
    }

    /// One transaction: refused at once where the session holds no claim, else
    /// it starts with the write of the packet.
    pub open spec fn transact(self, data: Seq<u8>) -> ProgressView {
        if self.claimed {
            ProgressView::Perform(
                ExchangeView {
                    session: self,
                    pending: Pending::Write { next_step: COLOR_SEQUENCE_LEN },
                    scope: Scope::Operation,
                },
                self.write_request(data),
            )
        } else {
            ProgressView::Finished(self, Err(HubError::NotClaimed))
        }
    }

    /// Setting the colour: refused at once where the session holds no claim.
    pub open spec fn set_color(self, r: u8, g: u8, b: u8) -> ProgressView {
        if self.claimed {
            self.begin_color(r, g, b, Scope::Operation)
        } else {
            ProgressView::Finished(self, Err(HubError::NotClaimed))
        }
    }

    /// A whole run: refused at once where the session holds the claim
    /// already, else it starts as a claim does.
    pub open spec fn light(self, r: u8, g: u8, b: u8) -> ProgressView {
        if self.claimed {
            ProgressView::Finished(self, Err(HubError::InterfaceUnavailable))
        } else {
            self.begin_claim(Scope::Lifecycle { r, g, b })
        }
    }
}

impl ExchangeView {
    /// The pending request fits the claim: a transfer is awaited only by a
    /// session that holds the claim, and a detachment, a claim or a release
    /// only by one that holds none.
    pub open spec fn orderly(self) -> bool {
        match self.pending {
            Pending::Detach => !self.session.claimed,
            Pending::Claim => !self.session.claimed,
            Pending::Release { .. } => !self.session.claimed,
            Pending::Write { next_step } => self.session.claimed && 1 <= next_step
                <= COLOR_SEQUENCE_LEN,
            Pending::Read { next_step } => self.session.claimed && 1 <= next_step
                <= COLOR_SEQUENCE_LEN,
        }
    }

    /// Whether `request` is the one the exchange waits on: of the pending
    /// sort, on the session's own interface or endpoint, a write with a
    /// message of the protocol, a transfer with the fixed deadline.
    pub open spec fn awaits(self, request: RequestView) -> bool {
        match self.pending {
            Pending::Detach => request == RequestView::DetachKernelDriver {
                interface: self.session.interface,
            },
            Pending::Claim => request == RequestView::ClaimInterface {
                interface: self.session.interface,
            },
            Pending::Release { .. } => request == RequestView::ReleaseInterface {
                interface: self.session.interface,
            },
            Pending::Write { .. } => {
                &&& request matches RequestView::WriteInterrupt { data, .. }
                &&& request == self.session.write_request(data)
                &&& is_message(data)
            },
            Pending::Read { .. } => request == self.session.read_request(),
        }
    }

    /// What follows the reply to the pending request.
    ///
    /// The detachment is best effort: the claim is asked for whatever the
    /// reply. A refused claim ends the operation with its error; a granted
    /// claim ends a single operation, and leads a whole run on to the colour.
    /// A completed write is followed by the read, and a completed read by the
    /// next packet of the colour sequence where there is one. A failed
    /// transfer, or the last read, ends the transfers. A release ends the
    /// operation, with the error of what went before it, or else its own.
    pub open spec fn resume(self, reply: Reply) -> ProgressView {
        match self.pending {
            Pending::Detach => ProgressView::Perform(
                ExchangeView {
                    session: self.session,
                    pending: Pending::Claim,
                    scope: self.scope,
                },
                RequestView::ClaimInterface { interface: self.session.interface },
            ),
            Pending::Claim => match reply {
                Reply::Completed { .. } => match self.scope {
                    Scope::Operation => ProgressView::Finished(
                        self.session.with_claim(true),
                        Ok(Outcome::Claimed),
                    ),
                    Scope::Lifecycle { r, g, b } => self.session.with_claim(true).begin_color(
                        r,
                        g,
                        b,
                        self.scope,
                    ),
                },
                Reply::Failed { fault } => ProgressView::Finished(
                    self.session,
                    Err(claim_error(fault)),
                ),
            },
            Pending::Release { earlier } => ProgressView::Finished(
                self.session,
                match earlier {
                    Some(error) => Err(error),
                    None => match reply {
                        Reply::Completed { .. } => Ok(Outcome::Released),
                        Reply::Failed { fault } => Err(transfer_error(fault)),
                    },
                },
            ),
            Pending::Write { next_step } => match reply {
                Reply::Completed { .. } => ProgressView::Perform(
                    ExchangeView {
                        session: self.session,
                        pending: Pending::Read { next_step },
                        scope: self.scope,
                    },
                    self.session.read_request(),
                ),
                Reply::Failed { fault } => self.session.end_transfers(
                    self.scope,
                    Err(transfer_error(fault)),
                ),
            },
            Pending::Read { next_step } => match reply {
                Reply::Completed { transferred } => if next_step < COLOR_SEQUENCE_LEN {
                    ProgressView::Perform(
                        ExchangeView {
                            session: self.session,
                            pending: Pending::Write { next_step: (next_step + 1) as u8 },
                            scope: self.scope,
                        },
                        self.session.write_request(color_sequence(next_step as int)),
                    )
                } else {
                    self.session.end_transfers(
                        self.scope,
                        Ok(Outcome::Acknowledged { bytes_read: transferred }),
                    )
                },
                Reply::Failed { fault } => self.session.end_transfers(
                    self.scope,
                    Err(transfer_error(fault)),
                ),
            },
        }
    }
}

impl ProgressView {
    /// An operation is in order where it is over, or where its exchange is
    /// orderly and waits on the very request that was handed out with it.
    pub open spec fn orderly(self) -> bool {
        match self {
            ProgressView::Perform(exchange, request) => exchange.orderly() && exchange.awaits(
                request,
            ),
            ProgressView::Finished(..) => true,
        }
    }
}

} // verus!
