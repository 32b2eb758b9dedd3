//! What holds of every run of a session.
//!
//! A run starts with an operation and feeds it the replies of the USB stack in
//! order. The laws say which requests a run performs and how it ends,
//! whatever the replies are.

use vstd::prelude::*;
use crate::error::{claim_error, transfer_error, HubError};
use crate::packet::{color_group_bytes, final_bytes, init_bytes, is_message};
use crate::protocol::{
    color_sequence, error_of, lemma_color_sequence_holds_messages, ExchangeView, Outcome, Pending,
    ProgressView, Scope, SessionView,
};
use crate::transport::{Reply, RequestView};

verus! {

/// Where a run stands once the replies have arrived in order. Replies that
/// arrive after the operation is over change nothing.
pub open spec fn after_replies(progress: ProgressView, replies: Seq<Reply>) -> ProgressView
    decreases replies.len(),
{
    match progress {
        ProgressView::Finished(..) => progress,
        ProgressView::Perform(exchange, _) => if replies.len() == 0 {
            progress
        } else {
            after_replies(exchange.resume(replies[0]), replies.drop_first())
        },
    }
}

/// The requests a run has performed once the replies have arrived in order:
/// one for each reply, as long as the operation is not over. The request
/// that waits for its reply at the end is not among them; it stands in
/// `after_replies`.
pub open spec fn requests_performed(progress: ProgressView, replies: Seq<Reply>) -> Seq<
    RequestView,
>
    decreases replies.len(),
{
    match progress {
        ProgressView::Finished(..) => Seq::empty(),
        ProgressView::Perform(exchange, request) => if replies.len() == 0 {
            Seq::empty()
        } else {
            seq![request] + requests_performed(exchange.resume(replies[0]), replies.drop_first())
        },
    }
}

/// The position of the first failed reply, or the number of replies where
/// none has failed.
pub open spec fn first_failure(replies: Seq<Reply>) -> int
    decreases replies.len(),
{
    if replies.len() == 0 || replies[0] is Failed {
        0
    } else {
        1 + first_failure(replies.drop_first())
    }
}

/// The two requests of one transaction: the write of the packet, then the
/// read of the acknowledgement.
pub open spec fn transaction(session: SessionView, data: Seq<u8>) -> Seq<RequestView> {
    seq![session.write_request(data), session.read_request()]
}

/// The twenty requests that set the colour, in order: the initialisation, the
/// eight colour groups at offsets 0, 2, .., 14, and the commit, each as one
/// transaction.
pub open spec fn color_script(session: SessionView) -> Seq<RequestView> {
    transaction(session, init_bytes())
        + transaction(session, color_group_bytes(0, 2, 4, 0, 127, 255, 255, 127, 0))
        + transaction(session, color_group_bytes(2, 2, 4, 0, 127, 255, 255, 127, 0))
        + transaction(session, color_group_bytes(4, 2, 4, 0, 127, 255, 255, 127, 0))
        + transaction(session, color_group_bytes(6, 2, 4, 0, 127, 255, 255, 127, 0))
        + transaction(session, color_group_bytes(8, 2, 4, 0, 127, 255, 255, 127, 0))
        + transaction(session, color_group_bytes(10, 2, 4, 0, 127, 255, 255, 127, 0))
        + transaction(session, color_group_bytes(12, 2, 4, 0, 127, 255, 255, 127, 0))
        + transaction(session, color_group_bytes(14, 2, 4, 0, 127, 255, 255, 127, 0))
        + transaction(session, final_bytes())
}

/// How many requests of the colour script a run has performed after the
/// replies: one for each reply, up to and including the first that failed,
/// and no more than the twenty there are.
pub open spec fn color_requests_performed(replies: Seq<Reply>) -> int {
    vstd::math::min(vstd::math::min(first_failure(replies) + 1, replies.len() as int), 20)
}

/// Before the first failure every reply is a success, and at it stands a
/// failure, if it lies among the replies at all.
pub proof fn lemma_first_failure(replies: Seq<Reply>)
    ensures
        0 <= first_failure(replies) <= replies.len(),
        forall|i: int| 0 <= i < first_failure(replies) ==> #[trigger] replies[i] is Completed,
        first_failure(replies) < replies.len() ==> replies[first_failure(replies)] is Failed,
    decreases replies.len(),
{
    if replies.len() > 0 && replies[0] is Completed {
        let rest = replies.drop_first();
        lemma_first_failure(rest);
        assert forall|i: int| 0 <= i < first_failure(replies) implies #[trigger] replies[i]
            is Completed by {
            if i > 0 {
                assert(replies[i] == rest[i - 1]);
            }
        }
        assert(first_failure(replies) < replies.len() ==> replies[first_failure(replies)]
            == rest[first_failure(rest)]);
    }
}

/// The first failure of two runs of replies, one after the other, is the
/// first failure of the first, or else that of the second.
proof fn lemma_first_failure_of_two(first: Seq<Reply>, second: Seq<Reply>)
    ensures
        first_failure(first + second) == if first_failure(first) < first.len() {
            first_failure(first)
        } else {
            first.len() + first_failure(second)
        },
    decreases first.len(),
{
    lemma_first_failure(first);
    if first.len() == 0 {
        assert(first + second =~= second);
    } else {
        assert((first + second).drop_first() =~= first.drop_first() + second);
        if first[0] is Completed {
            lemma_first_failure_of_two(first.drop_first(), second);
        }
    }
}

/// Every operation starts in order: the first request fits the claim and
/// goes to the session's own interface or endpoint.
pub proof fn lemma_operations_start_in_order(
    session: SessionView,
    data: Seq<u8>,
    r: u8,
    g: u8,
    b: u8,
)
    requires
        is_message(data),
    ensures
        session.claim().orderly(),
        session.release().orderly(),
        session.transact(data).orderly(),
        session.set_color(r, g, b).orderly(),
        session.light(r, g, b).orderly(),
{
    lemma_color_sequence_holds_messages(0);
}

/// Order is kept: whatever the reply, an orderly exchange goes on in order.
pub proof fn lemma_resume_keeps_order(exchange: ExchangeView, reply: Reply)
    requires
        exchange.orderly(),
    ensures
        exchange.resume(reply).orderly(),
{
    lemma_color_sequence_holds_messages(0);
    if let Pending::Read { next_step } = exchange.pending {
        lemma_color_sequence_holds_messages(next_step as int);
    }
}

/// A run that starts in order stays in order: from the first request to the
/// last, a transfer is asked for only while the session holds the claim, and
/// a claim or a release only while it holds none.
pub proof fn lemma_runs_stay_in_order(progress: ProgressView, replies: Seq<Reply>)
    requires
        progress.orderly(),
    ensures
        after_replies(progress, replies).orderly(),
    decreases replies.len(),
{
    if let ProgressView::Perform(exchange, _) = progress {
        if replies.len() > 0 {
            lemma_resume_keeps_order(exchange, replies[0]);
            lemma_runs_stay_in_order(exchange.resume(replies[0]), replies.drop_first());
        }
    }
}

/// A session that holds the claim is refused a second claim, and a session
/// that holds none is refused a release: at once, with nothing asked of the
/// USB stack, and with the session as it was.
pub proof fn lemma_claim_and_release_are_guarded(session: SessionView, replies: Seq<Reply>)
    ensures
        session.claimed ==> session.claim() == ProgressView::Finished(
            session,
            Err(HubError::InterfaceUnavailable),
        ),
        session.claimed ==> requests_performed(session.claim(), replies) == Seq::<
            RequestView,
        >::empty(),
        !session.claimed ==> session.release() == ProgressView::Finished(
            session,
            Err(HubError::NotClaimed),
        ),
        !session.claimed ==> requests_performed(session.release(), replies) == Seq::<
            RequestView,
        >::empty(),
{
}

/// How a claim runs on a session that holds none: the kernel driver is
/// detached first, whatever comes of it, then the interface is claimed. The
/// session holds the claim exactly if the claim succeeded; a claim on a busy
/// interface fails with `InterfaceUnavailable`.
pub proof fn lemma_claim_runs(session: SessionView, detached: Reply, claimed: Reply)
    requires
        !session.claimed,
    ensures
        requests_performed(session.claim(), seq![detached, claimed]) == seq![
            RequestView::DetachKernelDriver { interface: session.interface },
            RequestView::ClaimInterface { interface: session.interface },
        ],
        after_replies(session.claim(), seq![detached, claimed]) == match claimed {
            Reply::Completed { .. } => ProgressView::Finished(
                session.with_claim(true),
                Ok(Outcome::Claimed),
            ),
            Reply::Failed { fault } => ProgressView::Finished(session, Err(claim_error(fault))),
        },
{
    let replies = seq![detached, claimed];
    let rest = replies.drop_first();
    assert(rest =~= seq![claimed]);
    assert(rest.drop_first() =~= Seq::<Reply>::empty());
    let first = ExchangeView { session, pending: Pending::Detach, scope: Scope::Operation };
    let second = first.resume(detached);
    let third = second->Perform_0.resume(claimed);
    assert(requests_performed(third, rest.drop_first()) =~= Seq::<RequestView>::empty());
    assert(requests_performed(second, rest) =~= seq![
        RequestView::ClaimInterface { interface: session.interface },
    ]);
    assert(after_replies(third, rest.drop_first()) == third);
    assert(after_replies(second, rest) == third);
}

/// How a release runs on a session that holds the claim: one request, and the
/// claim is gone however it ends, so that a second release is refused.
pub proof fn lemma_release_runs(session: SessionView, released: Reply)
    requires
        session.claimed,
    ensures
        requests_performed(session.release(), seq![released]) == seq![
            RequestView::ReleaseInterface { interface: session.interface },
        ],
        after_replies(session.release(), seq![released]) == ProgressView::Finished(
            session.with_claim(false),
            match released {
                Reply::Completed { .. } => Ok(Outcome::Released),
                Reply::Failed { fault } => Err(transfer_error(fault)),
            },
        ),
        session.with_claim(false).release() == ProgressView::Finished(
            session.with_claim(false),
            Err(HubError::NotClaimed),
        ),
{
    lemma_release_ends(session, None, Scope::Operation, released);
}

/// A release under way takes one reply and ends with the error of what went
/// before it, or else with its own result.
proof fn lemma_release_ends(
    session: SessionView,
    earlier: Option<HubError>,
    scope: Scope,
    released: Reply,
)
    ensures
        requests_performed(session.begin_release(earlier, scope), seq![released]) == seq![
            RequestView::ReleaseInterface { interface: session.interface },
        ],
        after_replies(session.begin_release(earlier, scope), seq![released])
            == ProgressView::Finished(
            session.with_claim(false),
            match earlier {
                Some(error) => Err(error),
                None => match released {
                    Reply::Completed { .. } => Ok(Outcome::Released),
                    Reply::Failed { fault } => Err(transfer_error(fault)),
                },
            },
        ),
{
    let replies = seq![released];
    assert(replies.drop_first() =~= Seq::<Reply>::empty());
    let end = session.begin_release(earlier, scope)->Perform_0.resume(released);
    assert(requests_performed(end, replies.drop_first()) =~= Seq::<RequestView>::empty());
    assert(after_replies(end, replies.drop_first()) == end);
    assert(requests_performed(session.begin_release(earlier, scope), replies) =~= seq![
        RequestView::ReleaseInterface { interface: session.interface },
    ]);
}

/// Without the claim no transfer is asked for: a transaction and a colour
/// setting on a session that holds none end at once with `NotClaimed`.
pub proof fn lemma_transfers_need_the_claim(
    session: SessionView,
    data: Seq<u8>,
    r: u8,
    g: u8,
    b: u8,
    replies: Seq<Reply>,
)
    requires
        !session.claimed,
    ensures
        session.transact(data) == ProgressView::Finished(session, Err(HubError::NotClaimed)),
        session.set_color(r, g, b) == ProgressView::Finished(session, Err(HubError::NotClaimed)),
        requests_performed(session.transact(data), replies) == Seq::<RequestView>::empty(),
        requests_performed(session.set_color(r, g, b), replies) == Seq::<RequestView>::empty(),
{
}

/// One transaction is exactly one write followed by one read: the read is
/// asked for only after the write has succeeded, nothing is tried twice, and
/// the session keeps the claim.
pub proof fn lemma_transact_runs(session: SessionView, data: Seq<u8>, written: Reply, read: Reply)
    requires
        session.claimed,
    ensures
        requests_performed(session.transact(data), seq![written, read]) == transaction(
            session,
            data,
        ).take(if written is Failed { 1 } else { 2 }),
        after_replies(session.transact(data), seq![written, read]) == ProgressView::Finished(
            session,
            match written {
                Reply::Failed { fault } => Err(transfer_error(fault)),
                Reply::Completed { .. } => match read {
                    Reply::Failed { fault } => Err(transfer_error(fault)),
                    Reply::Completed { transferred } => Ok(
                        Outcome::Acknowledged { bytes_read: transferred },
                    ),
                },
            },
        ),
{
    let replies = seq![written, read];
    let rest = replies.drop_first();
    assert(rest =~= seq![read]);
    assert(rest.drop_first() =~= Seq::<Reply>::empty());
    let start = session.transact(data)->Perform_0;
    let second = start.resume(written);
    match written {
        Reply::Failed { .. } => {
            assert(requests_performed(second, rest) =~= Seq::<RequestView>::empty());
            assert(after_replies(second, rest) == second);
            assert(requests_performed(session.transact(data), replies) =~= transaction(
                session,
                data,
            ).take(1));
        },
        Reply::Completed { .. } => {
            let third = second->Perform_0.resume(read);
            assert(requests_performed(third, rest.drop_first()) =~= Seq::<RequestView>::empty());
            assert(requests_performed(second, rest) =~= seq![session.read_request()]);
            assert(after_replies(third, rest.drop_first()) == third);
            assert(requests_performed(session.transact(data), replies) =~= transaction(
                session,
                data,
            ).take(2));
        },
    }
}

/// The request at each position of the colour script: a write of the packet
/// of step `position / 2` at the even positions, a read at the odd ones.
proof fn lemma_color_script_at(session: SessionView, position: int)
    requires
        0 <= position < 20,
    ensures
        color_script(session).len() == 20,
        color_script(session)[position] == if position % 2 == 0 {
            session.write_request(color_sequence(position / 2))
        } else {
            session.read_request()
        },
{
    let script = color_script(session);
    assert(script.len() == 20);
    assert(script[0] == session.write_request(color_sequence(0)));
    assert(script[2] == session.write_request(color_sequence(1)));
    assert(script[4] == session.write_request(color_sequence(2)));
    assert(script[6] == session.write_request(color_sequence(3)));
    assert(script[8] == session.write_request(color_sequence(4)));
    assert(script[10] == session.write_request(color_sequence(5)));
    assert(script[12] == session.write_request(color_sequence(6)));
    assert(script[14] == session.write_request(color_sequence(7)));
    assert(script[16] == session.write_request(color_sequence(8)));
    assert(script[18] == session.write_request(color_sequence(9)));
}

/// The run of a colour setting that waits at `position` of the script.
spec fn color_run_at(session: SessionView, position: int, scope: Scope) -> ProgressView {
    ProgressView::Perform(
        ExchangeView {
            session,
            pending: if position % 2 == 0 {
                Pending::Write { next_step: (position / 2 + 1) as u8 }
            } else {
                Pending::Read { next_step: (position / 2 + 1) as u8 }
            },
            scope,
        },
        color_script(session)[position],
    )
}

/// Whether the replies bring the transfers of a colour setting that waits at
/// `position` to their end: one of them fails, or all that are left succeed.
spec fn color_is_over(position: int, replies: Seq<Reply>) -> bool {
    first_failure(replies) < replies.len() || first_failure(replies) >= 20 - position
}

/// The result of the transfers of a colour setting that waits at `position`,
/// where the replies bring them to their end.
spec fn color_result(position: int, replies: Seq<Reply>) -> Result<Outcome, HubError> {
    if first_failure(replies) >= 20 - position {
        Ok(Outcome::Acknowledged { bytes_read: replies[19 - position]->transferred })
    } else {
        Err(transfer_error(replies[first_failure(replies)]->fault))
    }
}

/// How many replies the transfers of a colour setting that waits at
/// `position` take.
spec fn color_replies_taken(position: int, replies: Seq<Reply>) -> int {
    vstd::math::min(
        vstd::math::min(first_failure(replies) + 1, replies.len() as int),
        20 - position,
    )
}

/// From any position of the script on, a colour setting performs the script
/// up to the first failure and no further, and then ends its transfers.
proof fn lemma_color_run_from(
    session: SessionView,
    position: int,
    scope: Scope,
    replies: Seq<Reply>,
)
    requires
        0 <= position < 20,
    ensures
        ({
            let taken = color_replies_taken(position, replies);
            let end = session.end_transfers(scope, color_result(position, replies));
            &&& 0 <= taken <= replies.len()
            &&& requests_performed(color_run_at(session, position, scope), replies)
                == color_script(session).subrange(position, position + taken) + if color_is_over(
                position,
                replies,
            ) {
                requests_performed(end, replies.skip(taken))
            } else {
                Seq::empty()
            }
            &&& after_replies(color_run_at(session, position, scope), replies) == if color_is_over(
                position,
                replies,
            ) {
                after_replies(end, replies.skip(taken))
            } else {
                color_run_at(session, position + taken, scope)
            }
        }),
    decreases replies.len(),
{
    let script = color_script(session);
    let run = color_run_at(session, position, scope);
    let taken = color_replies_taken(position, replies);
    let end = session.end_transfers(scope, color_result(position, replies));
    lemma_color_script_at(session, position);
    lemma_first_failure(replies);
    if replies.len() == 0 {
        assert(script.subrange(position, position) =~= Seq::<RequestView>::empty());
        assert(requests_performed(run, replies) =~= script.subrange(position, position)
            + Seq::<RequestView>::empty());
    } else {
        let rest = replies.drop_first();
        let exchange = run->Perform_0;
        let next = exchange.resume(replies[0]);
        assert(rest =~= replies.skip(1));
        assert(script.subrange(position, position + 1) =~= seq![script[position]]);
        match replies[0] {
            Reply::Failed { .. } => {
                assert(next == end);
            },
            Reply::Completed { .. } => {
                lemma_first_failure(rest);
                if position == 19 {
                    assert(next == end);
                } else {
                    lemma_color_script_at(session, position + 1);
                    assert(next == color_run_at(session, position + 1, scope));
                    lemma_color_run_from(session, position + 1, scope, rest);
                    let taken_rest = color_replies_taken(position + 1, rest);
                    assert(taken == taken_rest + 1);
                    assert(color_is_over(position, replies) == color_is_over(position + 1, rest));
                    assert(first_failure(replies) >= 20 - position ==> replies[19 - position]
                        == rest[19 - (position + 1)]);
                    assert(first_failure(replies) < replies.len() ==> replies[first_failure(
                        replies,
                    )] == rest[first_failure(rest)]);
                    assert(color_is_over(position, replies) ==> color_result(position, replies)
                        == color_result(position + 1, rest));
                    assert(rest.skip(taken_rest) =~= replies.skip(taken));
                    let tail = if color_is_over(position, replies) {
                        requests_performed(end, replies.skip(taken))
                    } else {
                        Seq::empty()
                    };
                    assert(seq![script[position]] + (script.subrange(
                        position + 1,
                        position + 1 + taken_rest,
                    ) + tail) =~= script.subrange(position, position + taken) + tail);
                }
            },
        }
    }
}

/// Setting the colour performs the colour script in order, one request per
/// reply, up to the first failure and no further: whatever colour is asked
/// for, and however many replies are at hand. With twenty successes the whole
/// script is done; the failure of a request leaves the rest of the script
/// undone.
pub proof fn lemma_set_color_follows_the_script(
    session: SessionView,
    r: u8,
    g: u8,
    b: u8,
    replies: Seq<Reply>,
)
    requires
        session.claimed,
    ensures
        requests_performed(session.set_color(r, g, b), replies) == color_script(session).take(
            color_requests_performed(replies),
        ),
{
    lemma_color_script_at(session, 0);
    assert(session.set_color(r, g, b) == color_run_at(session, 0, Scope::Operation));
    lemma_color_run_from(session, 0, Scope::Operation, replies);
    let taken = color_requests_performed(replies);
    assert(taken == color_replies_taken(0, replies));
    assert(color_script(session).subrange(0, taken) + Seq::<RequestView>::empty()
        =~= color_script(session).take(taken));
}

/// How setting the colour ends. After twenty successes it is done, with the
/// byte count of the last acknowledgement. A failure among the first twenty
/// replies ends it there with that failure's error, and nothing is left
/// waiting. Either way the session comes back as it was, with the claim.
/// With fewer replies and no failure the next request of the script waits.
pub proof fn lemma_set_color_ends(
    session: SessionView,
    r: u8,
    g: u8,
    b: u8,
    replies: Seq<Reply>,
)
    requires
        session.claimed,
    ensures
        first_failure(replies) >= 20 ==> after_replies(session.set_color(r, g, b), replies)
            == ProgressView::Finished(
            session,
            Ok(Outcome::Acknowledged { bytes_read: replies[19]->transferred }),
        ),
        first_failure(replies) < 20 && first_failure(replies) < replies.len() ==> after_replies(
            session.set_color(r, g, b),
            replies,
        ) == ProgressView::Finished(
            session,
            Err(transfer_error(replies[first_failure(replies)]->fault)),
        ),
        first_failure(replies) < 20 && first_failure(replies) == replies.len() ==> {
            &&& after_replies(session.set_color(r, g, b), replies) matches ProgressView::Perform(
                exchange,
                request,
            )
            &&& exchange.session == session
            &&& request == color_script(session)[replies.len() as int]
        },
{
    lemma_color_script_at(session, 0);
    assert(session.set_color(r, g, b) == color_run_at(session, 0, Scope::Operation));
    lemma_color_run_from(session, 0, Scope::Operation, replies);
    lemma_first_failure(replies);
}

/// A whole run on a session that holds the claim already is refused at once,
/// with nothing asked of the USB stack.
pub proof fn lemma_light_is_guarded(session: SessionView, r: u8, g: u8, b: u8, replies: Seq<Reply>)
    requires
        session.claimed,
    ensures
        session.light(r, g, b) == ProgressView::Finished(
            session,
            Err(HubError::InterfaceUnavailable),
        ),
        requests_performed(session.light(r, g, b), replies) == Seq::<RequestView>::empty(),
{
}

/// How a whole run goes. It claims as a claim does, and a refused claim ends
/// it. Once the claim is granted, it performs the colour script up to the
/// first failure, then the release: `transfers` are the replies to the
/// script, twenty successes or fewer successes and one failure at the end.
/// The session comes back without the claim, and the first error is the one
/// reported.
pub proof fn lemma_light_runs(
    session: SessionView,
    r: u8,
    g: u8,
    b: u8,
    detached: Reply,
    claimed: Reply,
    transfers: Seq<Reply>,
    released: Reply,
)
    requires
        !session.claimed,
        transfers.len() == vstd::math::min(first_failure(transfers) + 1, 20),
    ensures
        claimed is Failed ==> {
            &&& requests_performed(session.light(r, g, b), seq![detached, claimed]) == seq![
                RequestView::DetachKernelDriver { interface: session.interface },
                RequestView::ClaimInterface { interface: session.interface },
            ]
            &&& after_replies(session.light(r, g, b), seq![detached, claimed])
                == ProgressView::Finished(session, Err(claim_error(claimed->fault)))
        },
        claimed is Completed ==> {
            &&& requests_performed(
                session.light(r, g, b),
                seq![detached, claimed] + transfers + seq![released],
            ) == seq![
                RequestView::DetachKernelDriver { interface: session.interface },
                RequestView::ClaimInterface { interface: session.interface },
            ] + color_script(session.with_claim(true)).take(transfers.len() as int) + seq![
                RequestView::ReleaseInterface { interface: session.interface },
            ]
            &&& after_replies(
                session.light(r, g, b),
                seq![detached, claimed] + transfers + seq![released],
            ) == ProgressView::Finished(
                session,
                if transfers.last() is Failed {
                    Err(transfer_error(transfers.last()->fault))
                } else {
                    match released {
                        Reply::Completed { .. } => Ok(Outcome::Released),
                        Reply::Failed { fault } => Err(transfer_error(fault)),
                    }
                },
            )
        },
{
    let scope = Scope::Lifecycle { r, g, b };
    let holding = session.with_claim(true);
    let start = session.light(r, g, b);
    let second = start->Perform_0.resume(detached);
    let third = second->Perform_0.resume(claimed);
    let detach = RequestView::DetachKernelDriver { interface: session.interface };
    let claim = RequestView::ClaimInterface { interface: session.interface };
    let release = RequestView::ReleaseInterface { interface: session.interface };
    assert(holding.with_claim(false) == session);
    match claimed {
        Reply::Failed { .. } => {
            let replies = seq![detached, claimed];
            let rest = replies.drop_first();
            assert(rest =~= seq![claimed]);
            assert(rest.drop_first() =~= Seq::<Reply>::empty());
            assert(requests_performed(third, rest.drop_first()) =~= Seq::<RequestView>::empty());
            assert(requests_performed(second, rest) =~= seq![claim]);
            assert(after_replies(third, rest.drop_first()) == third);
            assert(after_replies(second, rest) == third);
            assert(requests_performed(start, replies) =~= seq![detach, claim]);
        },
        Reply::Completed { .. } => {
            let tail = transfers + seq![released];
            let replies = seq![detached, claimed] + transfers + seq![released];
            let rest = replies.drop_first();
            assert(rest =~= seq![claimed] + tail);
            assert(rest.drop_first() =~= tail);
            lemma_color_script_at(holding, 0);
            assert(third == color_run_at(holding, 0, scope));
            lemma_color_run_from(holding, 0, scope, tail);
            lemma_first_failure(transfers);
            lemma_first_failure(seq![released]);
            lemma_first_failure_of_two(transfers, seq![released]);
            let taken = color_replies_taken(0, tail);
            assert(tail.len() == transfers.len() + 1);
            assert(taken == transfers.len());
            assert(color_is_over(0, tail));
            assert(tail.skip(taken) =~= seq![released]);
            assert(first_failure(transfers) < transfers.len() ==> tail[first_failure(tail)]
                == transfers.last());
            assert(first_failure(transfers) < transfers.len() <==> transfers.last() is Failed);
            let result = color_result(0, tail);
            assert(holding.end_transfers(scope, result) == holding.begin_release(
                error_of(result),
                scope,
            ));
            lemma_release_ends(holding, error_of(result), scope, released);
            let script = color_script(holding);
            assert(script.subrange(0, taken) =~= script.take(taken));
            assert(requests_performed(third, tail) =~= script.take(taken) + seq![release]);
            assert(requests_performed(second, rest) =~= seq![claim] + (script.take(taken)
                + seq![release]));
            assert(requests_performed(start, replies) =~= seq![detach, claim] + script.take(taken)
                + seq![release]);
            assert(after_replies(second, rest) == after_replies(third, tail));
        },
    }
}

/// A whole run never leaves the claim behind: wherever it ends, with whatever
/// replies, the session comes back without the claim.
pub proof fn lemma_light_ends_without_the_claim(
    session: SessionView,
    r: u8,
    g: u8,
    b: u8,
    replies: Seq<Reply>,
)
    requires
        !session.claimed,
    ensures
        after_replies(session.light(r, g, b), replies) matches ProgressView::Finished(end, _)
            ==> !end.claimed,
{
    lemma_whole_runs_give_the_claim_back(session.light(r, g, b), replies);
}

/// Whether the progress belongs to a whole run that has kept order so far:
/// under way in order, or over without the claim.
spec fn whole_run_in_order(progress: ProgressView) -> bool {
    match progress {
        ProgressView::Perform(exchange, _) => exchange.scope is Lifecycle && progress.orderly(),
        ProgressView::Finished(session, _) => !session.claimed,
    }
}

proof fn lemma_whole_runs_give_the_claim_back(progress: ProgressView, replies: Seq<Reply>)
    requires
        whole_run_in_order(progress),
    ensures
        whole_run_in_order(after_replies(progress, replies)),
    decreases replies.len(),
{
    if let ProgressView::Perform(exchange, _) = progress {
        if replies.len() > 0 {
            lemma_resume_keeps_order(exchange, replies[0]);
            lemma_whole_runs_give_the_claim_back(exchange.resume(replies[0]), replies.drop_first());
        }
    }
}

} // verus!
