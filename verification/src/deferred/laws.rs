//! What holds of every step on a channel: each keeps a channel well formed
//! and changes the unresolved requests in one plain way.

use vstd::prelude::*;
use crate::deferred::{waiting_index, ChannelView};
use crate::error::Error;

verus! {

/// A channel on which nothing has happened is well formed and idle.
pub proof fn law_fresh_is_wf<C, R>()
    ensures
        ChannelView::<C, R>::fresh().wf(),
        ChannelView::<C, R>::fresh().is_idle(),
        !ChannelView::<C, R>::fresh().closed,
{
}

/// Moving a waiting request into a free mailbox changes neither which
/// requests are unresolved nor their order.
pub proof fn law_settle_keeps_outstanding<C, R>(v: ChannelView<C, R>)
    ensures
        v.settle().outstanding() == v.outstanding(),
        v.settle().next_ticket == v.next_ticket,
        v.settle().closed == v.closed,
{
    if v.mailbox is None && v.waiting.len() > 0 {
        assert(v.settle().outstanding() =~= v.outstanding());
    }
}

/// Issuing a request keeps an open channel well formed while tickets have
/// not run out, and puts the request last among the unresolved ones.
pub proof fn law_execute_preserves_wf<C, R>(v: ChannelView<C, R>, command: C)
    requires
        v.wf(),
        v.next_ticket < u64::MAX,
    ensures
        v.execute(command).0.wf(),
        !v.closed ==> v.execute(command).0.outstanding() == v.outstanding().push(
            (v.next_ticket, command),
        ),
        !v.closed ==> v.execute(command).0.next_ticket == v.next_ticket + 1,
{
    if !v.closed {
        let queued = ChannelView {
            waiting: v.waiting.push((v.next_ticket, command)),
            next_ticket: (v.next_ticket + 1) as u64,
            ..v
        };
        assert(queued.outstanding() =~= v.outstanding().push((v.next_ticket, command)));
        law_settle_keeps_outstanding(queued);
    }
}

/// Claiming a request keeps a channel well formed and leaves the unresolved
/// requests as they are. The request claimed is the oldest unresolved one.
pub proof fn law_receive_preserves_wf<C, R>(v: ChannelView<C, R>)
    requires
        v.wf(),
    ensures
        v.receive().0.wf(),
        v.receive().0.outstanding() == v.outstanding(),
        v.receive().1 is Some ==> v.outstanding().len() > 0 && v.receive().1 == Some(
            v.outstanding()[0],
        ),
{
    if v.claimable() {
        assert(v.receive().0.outstanding() =~= v.outstanding());
    }
}

/// Answering keeps a channel well formed. The unresolved requests stay as
/// they are, unless the answer is dropped because the issuer has given up:
/// then the oldest leaves.
pub proof fn law_respond_preserves_wf<C, R>(v: ChannelView<C, R>, ticket: u64, response: R)
    requires
        v.wf(),
    ensures
        v.respond(ticket, response).0.wf(),
        v.respond(ticket, response).0.outstanding() == (if v.answerable(ticket)
            && v.mailbox.unwrap().abandoned {
            v.outstanding().drop_first()
        } else {
            v.outstanding()
        }),
{
    if v.answerable(ticket) {
        if v.mailbox.unwrap().abandoned {
            let freed = ChannelView { mailbox: None, reply: None, ..v };
            law_settle_keeps_outstanding(freed);
            assert(freed.outstanding() =~= v.outstanding().drop_first());
        } else {
            assert(v.respond(ticket, response).0.outstanding() =~= v.outstanding());
        }
    }
}

/// Looking for an answer keeps a channel well formed. Collecting the answer
/// resolves the oldest unresolved request, and no other.
pub proof fn law_poll_response_preserves_wf<C, R>(v: ChannelView<C, R>, ticket: u64)
    requires
        v.wf(),
    ensures
        v.poll_response(ticket).0.wf(),
        v.poll_response(ticket).0.outstanding() == (if v.answered(ticket) {
            v.outstanding().drop_first()
        } else {
            v.outstanding()
        }),
        v.answered(ticket) ==> v.outstanding().len() > 0 && v.outstanding()[0].0 == ticket,
{
    if v.answered(ticket) {
        let freed = ChannelView { mailbox: None, reply: None, ..v };
        law_settle_keeps_outstanding(freed);
        assert(freed.outstanding() =~= v.outstanding().drop_first());
    }
}

/// `waiting_index` lies within the queue or just past its end; within the
/// queue it points at the first entry that carries the ticket.
pub proof fn law_waiting_index<C>(waiting: Seq<(u64, C)>, ticket: u64)
    ensures
        0 <= waiting_index(waiting, ticket) <= waiting.len(),
        waiting_index(waiting, ticket) < waiting.len() ==> waiting[waiting_index(
            waiting,
            ticket,
        )].0 == ticket,
        forall|j: int| 0 <= j < waiting_index(waiting, ticket) ==> waiting[j].0 != ticket,
    decreases waiting.len(),
{
    if waiting.len() > 0 && waiting[0].0 != ticket {
        let rest = waiting.drop_first();
        law_waiting_index(rest, ticket);
        assert forall|j: int| 0 <= j < waiting_index(waiting, ticket) implies waiting[j].0
            != ticket by {
            if j > 0 {
                assert(rest[j - 1] == waiting[j]);
            }
        }
    }
}

/// Giving up on a request keeps a channel well formed. A request that
/// waits leaves the unresolved requests; one in flight stays among them
/// until the receiver has answered, unless its answer is already there.
pub proof fn law_abandon_preserves_wf<C, R>(v: ChannelView<C, R>, ticket: u64)
    requires
        v.wf(),
    ensures
        v.abandon(ticket).wf(),
        v.abandon(ticket).outstanding() == (if v.answered(ticket) {
            v.outstanding().drop_first()
        } else if v.mailbox is Some && v.mailbox.unwrap().ticket != ticket && waiting_index(
            v.waiting,
            ticket,
        ) < v.waiting.len() {
            v.outstanding().remove(1 + waiting_index(v.waiting, ticket))
        } else {
            v.outstanding()
        }),
{
    if v.mailbox is Some && v.mailbox.unwrap().ticket == ticket {
        if v.reply is Some {
            let freed = ChannelView { mailbox: None, reply: None, ..v };
            law_settle_keeps_outstanding(freed);
            assert(freed.outstanding() =~= v.outstanding().drop_first());
        } else {
            assert(v.abandon(ticket).outstanding() =~= v.outstanding());
        }
    } else {
        law_waiting_index(v.waiting, ticket);
        let k = waiting_index(v.waiting, ticket);
        if k < v.waiting.len() {
            assert(v.abandon(ticket).outstanding() =~= v.outstanding().remove(k + 1));
        }
    }
}

/// A request that is given up while in flight is still served, and its
/// answer is thrown away: the receiver can claim it if it has not yet, the
/// answer is accepted, the mailbox passes to the next request, and the
/// issuer that gave up finds no answer.
pub proof fn law_abandoned_request_is_still_served<C, R>(v: ChannelView<C, R>, response: R)
    requires
        v.wf(),
        !v.closed,
        v.mailbox is Some,
        v.reply is None,
    ensures
        ({
            let m = v.mailbox.unwrap();
            let abandoned = v.abandon(m.ticket);
            let claimed = if m.claimed {
                abandoned
            } else {
                abandoned.receive().0
            };
            let (served, accepted) = claimed.respond(m.ticket, response);
            &&& abandoned.outstanding() == v.outstanding()
            &&& !m.claimed ==> abandoned.receive().1 == Some((m.ticket, m.command))
            &&& accepted
            &&& served.outstanding() == v.outstanding().drop_first()
            &&& served.reply is None
            &&& served.poll_response(m.ticket) == (served, None::<Result<(C, R), Error>>)
        }),
{
}

/// Closing keeps a channel well formed.
pub proof fn law_close_preserves_wf<C, R>(v: ChannelView<C, R>)
    requires
        v.wf(),
    ensures
        v.close().wf(),
        v.close().closed,
{
    if v.reply is Some {
        assert(v.close().outstanding() =~= v.outstanding().take(1));
    }
}

/// Once the receiving side is gone, every request fails with `Closed`: a new
/// one is refused, and the issuer of an earlier one is told when it looks
/// for the answer, unless the answer was given before the channel closed.
/// Nothing can be claimed or answered any more, and none of these steps
/// changes the channel.
pub proof fn law_closed_channel_fails_requests<C, R>(
    v: ChannelView<C, R>,
    command: C,
    ticket: u64,
    response: R,
)
    ensures
        ({
            let closed = v.close();
            &&& closed.execute(command) == (closed, Err::<u64, Error>(Error::Closed))
            &&& closed.receive() == (closed, None::<(u64, C)>)
            &&& closed.respond(ticket, response) == (closed, false)
            &&& !v.answered(ticket) ==> closed.poll_response(ticket) == (
                closed,
                Some(Err::<(C, R), Error>(Error::Closed)),
            )
            &&& v.answered(ticket) ==> closed.poll_response(ticket).1 == Some(
                Ok::<(C, R), Error>((v.mailbox.unwrap().command, v.reply.unwrap())),
            )
        }),
{
}

} // verus!
