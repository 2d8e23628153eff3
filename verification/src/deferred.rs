//! Rendezvous command channel.
//!
//! One side issues requests and later collects the answers; the other side
//! claims one request at a time and answers it. The channel is a mailbox with
//! one slot for the request in flight and one for its reply, and a queue of
//! requests that wait their turn for the mailbox. No step blocks: a step that
//! cannot make progress says so, and the caller waits and tries again.

use vstd::prelude::*;
use std::collections::VecDeque;
use crate::error::Error;

pub mod laws;
pub mod runs;

use laws::{
    law_abandon_preserves_wf, law_close_preserves_wf, law_execute_preserves_wf,
    law_poll_response_preserves_wf, law_receive_preserves_wf, law_respond_preserves_wf,
};

verus! {

/// The request that occupies the mailbox.
pub struct Outstanding<C> {
    /// Ticket handed to the issuer.
    pub ticket: u64,
    /// What was requested.
    pub command: C,
    /// The receiver has claimed the request and owes an answer.
    pub claimed: bool,
    /// The issuer has given up; the answer will be thrown away.
    pub abandoned: bool,
}

/// Mathematical model of a [`Channel`].
pub struct ChannelView<C, R> {
    /// The request in flight, if any.
    pub mailbox: Option<Outstanding<C>>,
    /// The answer to the request in flight, until its issuer collects it.
    pub reply: Option<R>,
    /// Requests waiting for the mailbox, oldest first, each with its ticket.
    pub waiting: Seq<(u64, C)>,
    /// Ticket of the next request to be accepted.
    pub next_ticket: u64,
    /// The receiving side is gone.
    pub closed: bool,
}

/// The ticket that follows `ticket`; the successor of the largest ticket is 0.
pub open spec fn next_ticket_after(ticket: u64) -> u64 {
    if ticket == u64::MAX {
        0
    } else {
        (ticket + 1) as u64
    }
}

/// Index of the first entry of `waiting` that carries `ticket`, or the length
/// of `waiting` if no entry does.
pub open spec fn waiting_index<C>(waiting: Seq<(u64, C)>, ticket: u64) -> int
    decreases waiting.len(),
{
    if waiting.len() == 0 {
        0
    } else if waiting[0].0 == ticket {
        0
    } else {
        1 + waiting_index(waiting.drop_first(), ticket)
    }
}

impl<C, R> ChannelView<C, R> {
    /// A channel on which nothing has happened yet.
    pub open spec fn fresh() -> Self {
        ChannelView {
            mailbox: None,
            reply: None,
            waiting: Seq::empty(),
            next_ticket: 0,
            closed: false,
        }
    }

    /// Nothing is in flight, waiting, or left to collect.
    pub open spec fn is_idle(self) -> bool {
        self.mailbox is None && self.reply is None && self.waiting.len() == 0
    }

    /// Moves the oldest waiting request into the mailbox if the mailbox is free.
    pub open spec fn settle(self) -> Self {
        if self.mailbox is None && self.waiting.len() > 0 {
            ChannelView {
                mailbox: Some(
                    Outstanding {
                        ticket: self.waiting[0].0,
                        command: self.waiting[0].1,
                        claimed: false,
                        abandoned: false,
                    },
                ),
                reply: None,
                waiting: self.waiting.drop_first(),
                ..self
            }
        } else {
            self
        }
    }

    /// Accepting a request: it joins the end of the queue under the next
    /// ticket. A closed channel accepts nothing.
    pub open spec fn execute(self, command: C) -> (Self, Result<u64, Error>) {
        if self.closed {
            (self, Err(Error::Closed))
        } else {
            (
                ChannelView {
                    waiting: self.waiting.push((self.next_ticket, command)),
                    next_ticket: next_ticket_after(self.next_ticket),
                    ..self
                }.settle(),
                Ok(self.next_ticket),
            )
        }
    }

    /// A request can be claimed: the mailbox holds one that nobody has claimed.
    pub open spec fn claimable(self) -> bool {
        !self.closed && self.mailbox is Some && !self.mailbox.unwrap().claimed
    }

    /// Claiming the request in the mailbox: its ticket and command, if it can
    /// be claimed.
    pub open spec fn receive(self) -> (Self, Option<(u64, C)>) {
        if self.claimable() {
            let m = self.mailbox.unwrap();
            (
                ChannelView { mailbox: Some(Outstanding { claimed: true, ..m }), ..self },
                Some((m.ticket, m.command)),
            )
        } else {
            (self, None)
        }
    }

    /// An answer under `ticket` is due: the mailbox holds the claimed,
    /// unanswered request with that ticket.
    pub open spec fn answerable(self, ticket: u64) -> bool {
        &&& !self.closed
        &&& self.mailbox is Some
        &&& self.mailbox.unwrap().claimed
        &&& self.mailbox.unwrap().ticket == ticket
        &&& self.reply is None
    }

    /// Answering the claimed request: the answer is kept for the issuer, or
    /// thrown away together with the request if the issuer has given up.
    pub open spec fn respond(self, ticket: u64, response: R) -> (Self, bool) {
        if self.answerable(ticket) {
            if self.mailbox.unwrap().abandoned {
                (ChannelView { mailbox: None, reply: None, ..self }.settle(), true)
            } else {
                (ChannelView { reply: Some(response), ..self }, true)
            }
        } else {
            (self, false)
        }
    }

    /// The answer to the request with `ticket` is ready to be collected.
    pub open spec fn answered(self, ticket: u64) -> bool {
        self.mailbox is Some && self.mailbox.unwrap().ticket == ticket && self.reply is Some
    }

    /// Looking for the answer to the request with `ticket`: the request and its
    /// answer once it is there, `Closed` if the channel is closed without one,
    /// nothing yet otherwise. Collecting the answer frees the mailbox.
    pub open spec fn poll_response(self, ticket: u64) -> (Self, Option<Result<(C, R), Error>>) {
        if self.answered(ticket) {
            (
                ChannelView { mailbox: None, reply: None, ..self }.settle(),
                Some(Ok((self.mailbox.unwrap().command, self.reply.unwrap()))),
            )
        } else if self.closed {
            (self, Some(Err(Error::Closed)))
        } else {
            (self, None)
        }
    }

    /// The issuer of `ticket` gives up. A waiting request leaves the queue; a
    /// request in flight stays for the receiver, and its answer is dropped.
    pub open spec fn abandon(self, ticket: u64) -> Self {
        if self.mailbox is Some && self.mailbox.unwrap().ticket == ticket {
            if self.reply is Some {
                ChannelView { mailbox: None, reply: None, ..self }.settle()
            } else {
                ChannelView {
                    mailbox: Some(Outstanding { abandoned: true, ..self.mailbox.unwrap() }),
                    ..self
                }
            }
        } else if waiting_index(self.waiting, ticket) < self.waiting.len() {
            ChannelView {
                waiting: self.waiting.remove(waiting_index(self.waiting, ticket)),
                ..self
            }
        } else {
            self
        }
    }

    /// The receiving side goes away for good. Only an answer that is already
    /// there survives.
    pub open spec fn close(self) -> Self {
        ChannelView {
            mailbox: if self.reply is Some {
                self.mailbox
            } else {
                None
            },
            waiting: Seq::empty(),
            closed: true,
            ..self
        }
    }

    /// Every unresolved request with its ticket, oldest first.
    pub open spec fn outstanding(self) -> Seq<(u64, C)> {
        match self.mailbox {
            Some(m) => seq![(m.ticket, m.command)] + self.waiting,
            None => self.waiting,
        }
    }

    /// The states a channel can reach while tickets have not run out: the
    /// mailbox is used before the queue, an answer belongs to a claimed
    /// request whose issuer still waits, and tickets grow from the mailbox
    /// through the queue up to the next ticket.
    pub open spec fn wf(self) -> bool {
        &&& self.mailbox is None ==> self.waiting.len() == 0 && self.reply is None
        &&& self.reply is Some ==> self.mailbox.unwrap().claimed
            && !self.mailbox.unwrap().abandoned
        &&& self.closed ==> self.waiting.len() == 0 && (self.mailbox is Some ==> self.reply is Some)
        &&& forall|i: int, j: int|
            0 <= i < j < self.outstanding().len() ==> self.outstanding()[i].0
                < self.outstanding()[j].0
        &&& forall|i: int|
            0 <= i < self.outstanding().len() ==> #[trigger] self.outstanding()[i].0
                < self.next_ticket
    }
}

/// A claimed request: what the receiver must answer exactly once. Its model
/// is the ticket of the request and what was requested.
pub struct Request<C> {
    ticket: u64,
    command: C,
}

impl<C> View for Request<C> {
    type V = (u64, C);

    closed spec fn view(&self) -> (u64, C) {
        (self.ticket, self.command)
    }
}

impl<C: Copy> Request<C> {
    /// Returns the ticket of the request this handle stands for.
    pub fn ticket(&self) -> (ticket: u64)
        ensures
            ticket == self@.0,
    {
        self.ticket
    }

    /// Returns what was requested.
    pub fn command(&self) -> (command: C)
        ensures
            command == self@.1,
    {
        self.command
    }
}

/// A channel between one side that issues requests of type `C` and one that
/// answers them with values of type `R`, one request at a time.
pub struct Channel<C, R> {
    mailbox: Option<Outstanding<C>>,
    reply: Option<R>,
    waiting: VecDeque<(u64, C)>,
    next_ticket: u64,
    closed: bool,
}

impl<C, R> View for Channel<C, R> {
    type V = ChannelView<C, R>;

    closed spec fn view(&self) -> ChannelView<C, R> {
        ChannelView {
            mailbox: self.mailbox,
            reply: self.reply,
            waiting: self.waiting@,
            next_ticket: self.next_ticket,
            closed: self.closed,
        }
    }
}

impl<C: Copy, R> Channel<C, R> {
    /// Creates an open channel with nothing in it.
    pub fn new() -> (channel: Self)
        ensures
            channel@ == ChannelView::<C, R>::fresh(),
            channel@.wf(),
    {
        Channel { mailbox: None, reply: None, waiting: VecDeque::new(), next_ticket: 0, closed: false }
    }

    /// Moves the oldest waiting request into the mailbox if the mailbox is free.
    fn settle(&mut self)
        ensures
            final(self)@ == old(self)@.settle(),
    {
        if self.mailbox.is_none() {
            match self.waiting.pop_front() {
                Some(entry) => {
                    self.mailbox = Some(
                        Outstanding {
                            ticket: entry.0,
                            command: entry.1,
                            claimed: false,
                            abandoned: false,
                        },
                    );
                    self.reply = None;
                },
                None => {},
            }
        }
    }

    /// Issues a request and returns the ticket under which its answer can be
    /// collected. The request takes the mailbox if it is free and waits its
    /// turn otherwise. Fails with `Closed` on a closed channel.
    pub fn execute(&mut self, command: C) -> (r: Result<u64, Error>)
        ensures
            (final(self)@, r) == old(self)@.execute(command),
            old(self)@.wf() && old(self)@.next_ticket < u64::MAX ==> final(self)@.wf(),
    {
        proof {
            if self@.wf() && self@.next_ticket < u64::MAX {
                law_execute_preserves_wf(self@, command);
            }
        }
        if self.closed {
            return Err(Error::Closed);
        }
        let ticket: u64 = self.next_ticket;
        self.waiting.push_back((ticket, command));
        self.next_ticket = if ticket == u64::MAX {
            0
        } else {
            ticket + 1
        };
        self.settle();
        Ok(ticket)
    }

    /// Claims the request in the mailbox for the receiver. Returns nothing
    /// while there is no request to claim: the mailbox is empty, its request
    /// is already claimed, or the channel is closed.
    pub fn receive(&mut self) -> (r: Option<Request<C>>)
        ensures
            final(self)@ == old(self)@.receive().0,
            match r {
                Some(request) => old(self)@.receive().1 == Some(request@),
                None => old(self)@.receive().1 is None,
            },
            old(self)@.wf() ==> final(self)@.wf(),
    {
        proof {
            if self@.wf() {
                law_receive_preserves_wf(self@);
            }
        }
        if self.closed {
            return None;
        }
        let unclaimed = match &self.mailbox {
            Some(m) => if m.claimed {
                None
            } else {
                Some((m.ticket, m.command, m.abandoned))
            },
            None => None,
        };
        match unclaimed {
            Some((ticket, command, abandoned)) => {
                self.mailbox = Some(Outstanding { ticket, command, claimed: true, abandoned });
                Some(Request { ticket, command })
            },
            None => None,
        }
    }

    /// Answers a claimed request and uses up its handle. Returns whether the
    /// answer was due: the handle stands for the claimed, unanswered request
    /// in the mailbox of an open channel. An answer that was not due changes
    /// nothing. An answer that was due is kept for the issuer, unless the
    /// issuer has given up; then it is dropped and the mailbox is freed.
    pub fn respond(&mut self, request: Request<C>, response: R) -> (accepted: bool)
        ensures
            (final(self)@, accepted) == old(self)@.respond(request@.0, response),
            old(self)@.wf() ==> final(self)@.wf(),
    {
        proof {
            if self@.wf() {
                law_respond_preserves_wf(self@, request@.0, response);
            }
        }
        if self.closed || self.reply.is_some() {
            return false;
        }
        let due = match &self.mailbox {
            Some(m) => if m.claimed && m.ticket == request.ticket {
                Some(m.abandoned)
            } else {
                None
            },
            None => None,
        };
        match due {
            Some(abandoned) => {
                if abandoned {
                    self.mailbox = None;
                    self.settle();
                } else {
                    self.reply = Some(response);
                }
                true
            },
            None => false,
        }
    }

    /// Looks for the answer to the request issued under `ticket`. Returns the
    /// request and its answer once the answer is there, and frees the mailbox
    /// for the next request. Returns `Closed` when the channel is closed and
    /// holds no answer for this ticket. Returns nothing while the request is
    /// still waiting or in flight.
    pub fn poll_response(&mut self, ticket: u64) -> (r: Option<Result<(C, R), Error>>)
        ensures
            (final(self)@, r) == old(self)@.poll_response(ticket),
            old(self)@.wf() ==> final(self)@.wf(),
    {
        proof {
            if self@.wf() {
                law_poll_response_preserves_wf(self@, ticket);
            }
        }
        let answered = match &self.mailbox {
            Some(m) => if m.ticket == ticket && self.reply.is_some() {
                Some(m.command)
            } else {
                None
            },
            None => None,
        };
        match answered {
            Some(command) => {
                let response = self.reply.take().unwrap();
                self.mailbox = None;
                self.settle();
                Some(Ok((command, response)))
            },
            None => if self.closed {
                Some(Err(Error::Closed))
            } else {
                None
            },
        }
    }

    /// Gives up on the request issued under `ticket`. If it still waits, it
    /// leaves the queue and never reaches the receiver. If it is in flight, it
    /// stays there for the receiver and its answer will be dropped. If its
    /// answer is already there, the answer is dropped and the mailbox freed.
    /// A ticket that stands for no unresolved request changes nothing.
    pub fn abandon(&mut self, ticket: u64)
        ensures
            final(self)@ == old(self)@.abandon(ticket),
            old(self)@.wf() ==> final(self)@.wf(),
    {
        proof {
            if self@.wf() {
                law_abandon_preserves_wf(self@, ticket);
            }
        }
        let in_flight = match &self.mailbox {
            Some(m) => if m.ticket == ticket {
                Some((m.command, m.claimed))
            } else {
                None
            },
            None => None,
        };
        match in_flight {
            Some((command, claimed)) => {
                if self.reply.is_some() {
                    self.mailbox = None;
                    self.reply = None;
                    self.settle();
                } else {
                    self.mailbox = Some(Outstanding { ticket, command, claimed, abandoned: true });
                }
                return ;
            },
            None => {},
        }
        let n = self.waiting.len();
        let mut i: usize = 0;
        while i < n
            invariant
                i <= n,
                n == self.waiting@.len(),
                *self == *old(self),
                old(self)@.wf() ==> old(self)@.abandon(ticket).wf(),
                !(self.mailbox is Some && self.mailbox.unwrap().ticket == ticket),
                forall|j: int| 0 <= j < i ==> self.waiting@[j].0 != ticket,
            decreases n - i,
        {
            if self.waiting[i].0 == ticket {
                proof {
                    lemma_waiting_index(self.waiting@, ticket, i as int);
                }
                self.waiting.remove(i);
                return ;
            }
            i += 1;
        }
        proof {
            lemma_waiting_index(self.waiting@, ticket, n as int);
        }
    }

    /// Marks the receiving side as gone for good. Requests that wait or are in
    /// flight are dropped, and their issuers learn of it when they next look
    /// for an answer. An answer that is already there stays until collected.
    pub fn close(&mut self)
        ensures
            final(self)@ == old(self)@.close(),
            old(self)@.wf() ==> final(self)@.wf(),
    {
        proof {
            if self@.wf() {
                law_close_preserves_wf(self@);
            }
        }
        if self.reply.is_none() {
            self.mailbox = None;
        }
        self.waiting.clear();
        self.closed = true;
    }
}

/// `waiting_index` finds the position `k` when no entry before `k` carries the
/// ticket and `k` is either the end of the queue or an entry that carries it.
proof fn lemma_waiting_index<C>(waiting: Seq<(u64, C)>, ticket: u64, k: int)
    requires
        0 <= k <= waiting.len(),
        forall|j: int| 0 <= j < k ==> waiting[j].0 != ticket,
        k < waiting.len() ==> waiting[k].0 == ticket,
    ensures
        waiting_index(waiting, ticket) == k,
    decreases k,
{
    if k > 0 {
        let rest = waiting.drop_first();
        assert forall|j: int| 0 <= j < k - 1 implies rest[j].0 != ticket by {
            assert(rest[j] == waiting[j + 1]);
        }
        lemma_waiting_index(rest, ticket, k - 1);
    }
}

} // verus!
