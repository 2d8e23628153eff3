//! What holds of every sequence of steps on a channel: requests and answers
//! are matched, one answer to one request, and in the order in which the
//! requests were issued.

use vstd::prelude::*;
use crate::deferred::laws::{
    law_abandon_preserves_wf, law_close_preserves_wf, law_execute_preserves_wf,
    law_poll_response_preserves_wf, law_receive_preserves_wf, law_respond_preserves_wf,
    law_settle_keeps_outstanding, law_waiting_index,
};
use crate::deferred::{waiting_index, ChannelView};

verus! {

/// One thing that happens on a channel.
pub enum Step<C, R> {
    /// Some issuer issues a request.
    Execute(C),
    /// The receiver tries to claim a request.
    Receive,
    /// The receiver answers the request it holds, if it holds one.
    Respond(R),
    /// The issuer of the request that was accepted as the `i`-th, counted
    /// from 0, looks for its answer.
    Poll(int),
    /// The issuer of the request that was accepted as the `i`-th gives up.
    Abandon(int),
    /// The receiver goes away for good.
    Close,
}

/// A channel together with a record of what has happened on it.
pub struct Run<C, R> {
    /// The channel.
    pub channel: ChannelView<C, R>,
    /// The requests accepted so far, in the order of the calls, each with the
    /// ticket it was given.
    pub issued: Seq<(u64, C)>,
    /// The request that the receiver has claimed and not answered yet.
    pub held: Option<(u64, C)>,
    /// The requests that the receiver has claimed so far, in order.
    pub claimed: Seq<(u64, C)>,
    /// The answers that the channel has accepted so far, in order, each with
    /// the ticket of the request it answers.
    pub answers: Seq<(u64, R)>,
    /// What the issuers have collected so far, in order: ticket, request
    /// and answer.
    pub exchanges: Seq<(u64, C, R)>,
}

impl<C, R> Run<C, R> {
    /// A fresh channel on which nothing has happened.
    pub open spec fn start() -> Self {
        Run {
            channel: ChannelView::fresh(),
            issued: Seq::empty(),
            held: None,
            claimed: Seq::empty(),
            answers: Seq::empty(),
            exchanges: Seq::empty(),
        }
    }

    /// The run after one more step.
    pub open spec fn step(self, step: Step<C, R>) -> Self {
        match step {
            Step::Execute(command) => {
                let (channel, r) = self.channel.execute(command);
                match r {
                    Ok(ticket) => Run {
                        channel,
                        issued: self.issued.push((ticket, command)),
                        ..self
                    },
                    Err(_) => Run { channel, ..self },
                }
            },
            Step::Receive => {
                let (channel, r) = self.channel.receive();
                match r {
                    Some(request) => Run {
                        channel,
                        held: Some(request),
                        claimed: self.claimed.push(request),
                        ..self
                    },
                    None => Run { channel, ..self },
                }
            },
            Step::Respond(response) => {
                match self.held {
                    Some(request) => {
                        let (channel, accepted) = self.channel.respond(request.0, response);
                        Run {
                            channel,
                            held: None,
                            answers: if accepted {
                                self.answers.push((request.0, response))
                            } else {
                                self.answers
                            },
                            ..self
                        }
                    },
                    None => self,
                }
            },
            Step::Poll(i) => {
                if 0 <= i < self.issued.len() {
                    let ticket = self.issued[i].0;
                    let (channel, r) = self.channel.poll_response(ticket);
                    match r {
                        Some(Ok((command, response))) => Run {
                            channel,
                            exchanges: self.exchanges.push((ticket, command, response)),
                            ..self
                        },
                        _ => Run { channel, ..self },
                    }
                } else {
                    self
                }
            },
            Step::Abandon(i) => {
                if 0 <= i < self.issued.len() {
                    Run { channel: self.channel.abandon(self.issued[i].0), ..self }
                } else {
                    self
                }
            },
            Step::Close => Run { channel: self.channel.close(), ..self },
        }
    }

    /// The run after the given steps, taken in order.
    pub open spec fn run(self, steps: Seq<Step<C, R>>) -> Self
        decreases steps.len(),
    {
        if steps.len() == 0 {
            self
        } else {
            self.run(steps.drop_last()).step(steps.last())
        }
    }

    /// Requests and answers are matched. Tickets count the accepted requests.
    /// The receiver is handed only requests that were issued, each at most
    /// once and in the order of their tickets, and the channel accepts at
    /// most one answer for each, and only for a request that was claimed.
    /// Every exchange that an issuer collects holds a ticket, the request
    /// that was issued under that ticket, and an answer that the receiver
    /// gave under that ticket; no ticket is collected twice. At most one
    /// request is claimed and not yet answered.
    pub open spec fn matched(self) -> bool {
        &&& self.exchanges.len() <= self.answers.len() <= self.claimed.len() <= self.issued.len()
        &&& self.claimed.len() <= self.answers.len() + 1
        &&& forall|i: int| 0 <= i < self.issued.len() ==> (#[trigger] self.issued[i]).0 == i
        &&& forall|j: int|
            0 <= j < self.claimed.len() ==> (#[trigger] self.claimed[j]).0 < self.issued.len()
                && self.issued[self.claimed[j].0 as int] == self.claimed[j]
        &&& forall|j: int, k: int|
            0 <= j < k < self.claimed.len() ==> (#[trigger] self.claimed[j]).0
                < (#[trigger] self.claimed[k]).0
        &&& forall|j: int|
            0 <= j < self.answers.len() ==> (#[trigger] self.answers[j]).0 < self.issued.len()
                && self.claimed.contains(self.issued[self.answers[j].0 as int])
        &&& forall|j: int, k: int|
            0 <= j < k < self.answers.len() ==> (#[trigger] self.answers[j]).0
                < (#[trigger] self.answers[k]).0
        &&& forall|j: int|
            0 <= j < self.exchanges.len() ==> (#[trigger] self.exchanges[j]).0 < self.issued.len()
                && self.issued[self.exchanges[j].0 as int].1 == self.exchanges[j].1
                && self.answers.contains((self.exchanges[j].0, self.exchanges[j].2))
        &&& forall|j: int, k: int|
            0 <= j < k < self.exchanges.len() ==> (#[trigger] self.exchanges[j]).0
                < (#[trigger] self.exchanges[k]).0
    }

    /// How the channel stands to the record of a run that started afresh.
    spec fn sound(self) -> bool {
        let v = self.channel;
        &&& self.matched()
        &&& v.wf()
        &&& v.next_ticket == self.issued.len()
        &&& self.claimed.len() == self.answers.len() + 1 ==> v.closed || (v.mailbox is Some
            && v.mailbox.unwrap().claimed && v.reply is None)
        &&& v.reply is Some ==> self.exchanges.len() < self.answers.len()
        &&& forall|j: int| 0 <= j < self.claimed.len() ==> (#[trigger] self.claimed[j]).0 >= j
        &&& forall|i: int|
            0 <= i < v.outstanding().len() ==> (#[trigger] v.outstanding()[i]).0
                < self.issued.len() && self.issued[v.outstanding()[i].0 as int]
                == v.outstanding()[i]
        &&& self.held matches Some(h) ==> {
            &&& self.claimed.len() == self.answers.len() + 1
            &&& h == self.claimed.last()
            &&& forall|j: int| 0 <= j < self.answers.len() ==> (#[trigger] self.answers[j]).0 < h.0
            &&& !v.closed ==> v.answerable(h.0)
        }
        &&& v.mailbox matches Some(m) ==> {
            &&& forall|j: int|
                0 <= j < self.exchanges.len() ==> (#[trigger] self.exchanges[j]).0 < m.ticket
            &&& if m.claimed {
                self.claimed.len() > 0 && self.claimed.last() == (m.ticket, m.command)
            } else {
                forall|j: int|
                    0 <= j < self.claimed.len() ==> (#[trigger] self.claimed[j]).0 < m.ticket
            }
            &&& match v.reply {
                Some(r) => self.answers.len() > 0 && self.answers.last() == (m.ticket, r),
                None => forall|j: int|
                    0 <= j < self.answers.len() ==> (#[trigger] self.answers[j]).0 < m.ticket,
            }
        }
    }
}

/// Every step but giving up and closing.
pub open spec fn orderly<C, R>(steps: Seq<Step<C, R>>) -> bool {
    forall|k: int|
        0 <= k < steps.len() ==> !(#[trigger] steps[k] is Abandon) && !(steps[k] is Close)
}

/// One step keeps the channel and the record of a run in agreement.
proof fn lemma_step_sound<C, R>(r: Run<C, R>, step: Step<C, R>)
    requires
        r.sound(),
        r.issued.len() < u64::MAX,
    ensures
        r.step(step).sound(),
        r.step(step).issued.len() <= r.issued.len() + 1,
{
    let v = r.channel;
    let next = r.step(step);
    let w = next.channel;
    match step {
        Step::Execute(command) => {
            law_execute_preserves_wf(v, command);
            if !v.closed {
                let entry = (v.next_ticket, command);
                assert forall|i: int| 0 <= i < w.outstanding().len() implies {
                    &&& (#[trigger] w.outstanding()[i]).0 < next.issued.len()
                    &&& next.issued[w.outstanding()[i].0 as int] == w.outstanding()[i]
                } by {
                    if i < v.outstanding().len() {
                        assert(w.outstanding()[i] == v.outstanding()[i]);
                    }
                }
                assert(w.mailbox is Some);
                if v.mailbox is None {
                    assert(v.outstanding().len() == 0);
                    assert(w.outstanding()[0] == entry);
                } else {
                    assert(w.mailbox == v.mailbox);
                    assert(w.reply == v.reply);
                }
            }
        },
        Step::Receive => {
            law_receive_preserves_wf(v);
            if v.claimable() {
                let m = v.mailbox.unwrap();
                let request = (m.ticket, m.command);
                assert(v.outstanding()[0] == request);
                assert forall|j: int| 0 <= j < next.answers.len() implies next.claimed.contains(
                    next.issued[(#[trigger] next.answers[j]).0 as int],
                ) by {
                    let found = r.issued[r.answers[j].0 as int];
                    let k = choose|k: int| 0 <= k < r.claimed.len() && r.claimed[k] == found;
                    assert(next.claimed[k] == found);
                }
                assert(next.claimed.last() == request);
            }
        },
        Step::Respond(response) => {
            if r.held is Some {
                let h = r.held.unwrap();
                law_respond_preserves_wf(v, h.0, response);
                if v.answerable(h.0) {
                    let m = v.mailbox.unwrap();
                    let answer = (h.0, response);
                    assert(next.answers.last() == answer);
                    assert(next.claimed[next.claimed.len() - 1] == r.issued[h.0 as int]);
                    assert forall|j: int| 0 <= j < next.exchanges.len() implies next.answers.contains(
                        ((#[trigger] next.exchanges[j]).0, next.exchanges[j].2),
                    ) by {
                        let found = (r.exchanges[j].0, r.exchanges[j].2);
                        let k = choose|k: int| 0 <= k < r.answers.len() && r.answers[k] == found;
                        assert(next.answers[k] == found);
                    }
                    if m.abandoned {
                        let freed = ChannelView { mailbox: None, reply: None, ..v };
                        law_settle_keeps_outstanding(freed);
                        assert(freed.outstanding() =~= v.outstanding().drop_first());
                        lemma_head_promoted(r, next);
                    }
                }
            }
        },
        Step::Poll(i) => {
            if 0 <= i < r.issued.len() {
                let ticket = r.issued[i].0;
                law_poll_response_preserves_wf(v, ticket);
                if v.answered(ticket) {
                    let m = v.mailbox.unwrap();
                    assert(v.outstanding()[0] == (m.ticket, m.command));
                    let freed = ChannelView { mailbox: None, reply: None, ..v };
                    law_settle_keeps_outstanding(freed);
                    assert(freed.outstanding() =~= v.outstanding().drop_first());
                    assert(r.answers[r.answers.len() - 1] == (ticket, v.reply.unwrap()));
                    lemma_head_promoted(r, next);
                }
            }
        },
        Step::Abandon(i) => {
            if 0 <= i < r.issued.len() {
                let ticket = r.issued[i].0;
                law_abandon_preserves_wf(v, ticket);
                if v.mailbox is Some && v.mailbox.unwrap().ticket == ticket {
                    if v.reply is Some {
                        let freed = ChannelView { mailbox: None, reply: None, ..v };
                        law_settle_keeps_outstanding(freed);
                        assert(freed.outstanding() =~= v.outstanding().drop_first());
                        lemma_head_promoted(r, next);
                    } else {
                        assert(w.outstanding() =~= v.outstanding());
                    }
                } else {
                    law_waiting_index(v.waiting, ticket);
                    let k = waiting_index(v.waiting, ticket);
                    if k < v.waiting.len() {
                        assert(w.outstanding() =~= v.outstanding().remove(k + 1));
                        assert forall|i: int| 0 <= i < w.outstanding().len() implies {
                            &&& (#[trigger] w.outstanding()[i]).0 < next.issued.len()
                            &&& next.issued[w.outstanding()[i].0 as int] == w.outstanding()[i]
                        } by {
                            if i < k + 1 {
                                assert(w.outstanding()[i] == v.outstanding()[i]);
                            } else {
                                assert(w.outstanding()[i] == v.outstanding()[i + 1]);
                            }
                        }
                    }
                }
            }
        },
        Step::Close => {
            law_close_preserves_wf(v);
            if v.reply is Some {
                assert(w.outstanding() =~= v.outstanding().take(1));
                assert(w.outstanding()[0] == v.outstanding()[0]);
            }
        },
    }
}

/// When the oldest unresolved request leaves and the next takes the mailbox,
/// the record stands to the new mailbox as it must: everything claimed,
/// answered or collected so far is older than the request now in the mailbox.
proof fn lemma_head_promoted<C, R>(r: Run<C, R>, next: Run<C, R>)
    requires
        r.sound(),
        r.channel.mailbox is Some,
        next.channel.wf(),
        next.channel.outstanding() == r.channel.outstanding().drop_first(),
        next.channel.reply is None,
        next.channel.mailbox matches Some(m) ==> !m.claimed,
        next.issued == r.issued,
        next.claimed == r.claimed,
        forall|j: int|
            0 <= j < next.answers.len() ==> (#[trigger] next.answers[j]).0
                <= r.channel.mailbox.unwrap().ticket,
        forall|j: int|
            0 <= j < next.exchanges.len() ==> (#[trigger] next.exchanges[j]).0
                <= r.channel.mailbox.unwrap().ticket,
        forall|j: int|
            0 <= j < next.claimed.len() ==> (#[trigger] next.claimed[j]).0
                <= r.channel.mailbox.unwrap().ticket,
    ensures
        forall|i: int|
            0 <= i < next.channel.outstanding().len() ==> (#[trigger] next.channel.outstanding()[i]).0
                < next.issued.len() && next.issued[next.channel.outstanding()[i].0 as int]
                == next.channel.outstanding()[i],
        next.channel.mailbox matches Some(m) ==> {
            &&& forall|j: int|
                0 <= j < next.exchanges.len() ==> (#[trigger] next.exchanges[j]).0 < m.ticket
            &&& forall|j: int|
                0 <= j < next.claimed.len() ==> (#[trigger] next.claimed[j]).0 < m.ticket
            &&& forall|j: int|
                0 <= j < next.answers.len() ==> (#[trigger] next.answers[j]).0 < m.ticket
        },
{
    let before = r.channel.outstanding();
    let after = next.channel.outstanding();
    assert forall|i: int| 0 <= i < after.len() implies {
        &&& (#[trigger] after[i]).0 < next.issued.len()
        &&& next.issued[after[i].0 as int] == after[i]
    } by {
        assert(after[i] == before[i + 1]);
    }
    if next.channel.mailbox is Some {
        assert(after[0] == before[1]);
        assert(before[0].0 < before[1].0);
    }
}

/// A run of fewer than 2^64 steps from a fresh channel keeps the channel and
/// the record in agreement.
proof fn lemma_run_sound<C, R>(steps: Seq<Step<C, R>>)
    requires
        steps.len() <= u64::MAX,
    ensures
        Run::<C, R>::start().run(steps).sound(),
        Run::<C, R>::start().run(steps).issued.len() <= steps.len(),
    decreases steps.len(),
{
    if steps.len() > 0 {
        lemma_run_sound(steps.drop_last());
        lemma_step_sound(Run::<C, R>::start().run(steps.drop_last()), steps.last());
    }
}

/// Whatever is done on a fresh channel, in whatever order, requests and
/// answers are matched: the receiver is handed only requests that were
/// issued, each at most once and in call order; at most one answer is
/// accepted for each; and what an issuer collects under a ticket is the
/// request that was issued under that ticket with an answer that the
/// receiver gave to that request, no ticket twice. This holds of every
/// sequence of issuing, claiming, answering, collecting, giving up and
/// closing that is shorter than 2^64 steps, so that tickets do not run out.
pub proof fn law_exchanges_match<C, R>(steps: Seq<Step<C, R>>)
    requires
        steps.len() <= u64::MAX,
    ensures
        Run::<C, R>::start().run(steps).matched(),
        Run::<C, R>::start().run(steps).channel.wf(),
{
    lemma_run_sound(steps);
}

/// The answer that an issuer finds under its ticket belongs to the request
/// that it issued: whatever has been done on a fresh channel, when the answer
/// to the `i`-th request issued is ready to be collected, the request that
/// comes with it is that `i`-th request, and the answer is the last one that
/// the receiver gave. This holds of every sequence of steps shorter than
/// 2^64, so that tickets do not run out.
pub proof fn law_answer_belongs_to_request<C, R>(steps: Seq<Step<C, R>>, i: int)
    requires
        steps.len() <= u64::MAX,
        0 <= i < Run::<C, R>::start().run(steps).issued.len(),
    ensures
        ({
            let r = Run::<C, R>::start().run(steps);
            r.channel.answered(r.issued[i].0) ==> {
                &&& r.channel.mailbox.unwrap().command == r.issued[i].1
                &&& r.answers.len() > 0
                &&& r.answers.last() == (r.issued[i].0, r.channel.reply.unwrap())
            }
        }),
{
    lemma_run_sound(steps);
    let r = Run::<C, R>::start().run(steps);
    if r.channel.answered(r.issued[i].0) {
        assert(r.channel.outstanding()[0].0 == r.issued[i].0);
    }
}

impl<C, R> Run<C, R> {
    /// Requests and answers are matched in order: the receiver has claimed
    /// the first of the requests issued, none skipped; the `i`-th answer
    /// answers the `i`-th request; and the `i`-th exchange collected pairs
    /// the `i`-th request with the `i`-th answer under ticket `i`. At most
    /// one request is claimed and not yet collected.
    pub open spec fn in_order(self) -> bool {
        let n = self.issued.len();
        let k = self.claimed.len();
        let a = self.answers.len();
        let e = self.exchanges.len();
        &&& e <= a <= k <= n
        &&& k <= e + 1
        &&& self.claimed == self.issued.take(k as int)
        &&& forall|i: int| 0 <= i < a ==> (#[trigger] self.answers[i]).0 == i
        &&& forall|i: int|
            0 <= i < e ==> #[trigger] self.exchanges[i] == (
                self.issued[i].0,
                self.issued[i].1,
                self.answers[i].1,
            )
    }

    /// How the channel stands to the record of a run that started afresh and
    /// in which nobody gave up or went away.
    spec fn consistent(self) -> bool {
        let k = self.claimed.len();
        let a = self.answers.len();
        let e = self.exchanges.len();
        &&& self.sound()
        &&& self.in_order()
        &&& !self.channel.closed
        &&& self.channel.outstanding() == self.issued.skip(e as int)
        &&& self.channel.mailbox is None ==> k == e && a == e
        &&& self.channel.mailbox matches Some(m) ==> {
            &&& !m.abandoned
            &&& m.claimed <==> k == e + 1
            &&& self.channel.reply is Some <==> a == e + 1
        }
        &&& self.held is Some <==> k == e + 1 && a == e
    }
}

/// One step, other than giving up or closing, keeps the channel and the
/// record of an orderly run in agreement.
proof fn lemma_step_consistent<C, R>(r: Run<C, R>, step: Step<C, R>)
    requires
        r.consistent(),
        r.issued.len() < u64::MAX,
        !(step is Abandon),
        !(step is Close),
    ensures
        r.step(step).consistent(),
        r.step(step).issued.len() <= r.issued.len() + 1,
{
    let e = r.exchanges.len() as int;
    let next = r.step(step);
    lemma_step_sound(r, step);
    match step {
        Step::Execute(command) => {
            law_execute_preserves_wf(r.channel, command);
            assert(next.issued.skip(e) =~= r.issued.skip(e).push((r.channel.next_ticket, command)));
            assert(next.issued.take(r.claimed.len() as int) =~= r.issued.take(
                r.claimed.len() as int,
            ));
        },
        Step::Receive => {
            law_receive_preserves_wf(r.channel);
            if r.channel.claimable() {
                assert(r.channel.outstanding()[0] == r.issued.skip(e)[0]);
                assert(r.issued.take(e + 1) =~= r.issued.take(e).push(r.issued[e]));
            }
        },
        Step::Respond(response) => {
            if r.held is Some {
                law_respond_preserves_wf(r.channel, r.held.unwrap().0, response);
                assert(r.channel.outstanding()[0] == r.issued.skip(e)[0]);
                assert(r.held.unwrap() == r.claimed[e]);
            }
        },
        Step::Poll(i) => {
            if 0 <= i < r.issued.len() {
                let ticket = r.issued[i].0;
                law_poll_response_preserves_wf(r.channel, ticket);
                if r.channel.answered(ticket) {
                    assert(r.channel.outstanding()[0] == r.issued.skip(e)[0]);
                    assert(r.issued.skip(e).drop_first() =~= r.issued.skip(e + 1));
                    assert(i == e);
                    assert(r.answers[e] == (ticket, r.channel.reply.unwrap()));
                }
            }
        },
        _ => {},
    }
}

/// An orderly run of fewer than 2^64 steps from a fresh channel keeps the
/// channel and the record in agreement.
proof fn lemma_run_consistent<C, R>(steps: Seq<Step<C, R>>)
    requires
        steps.len() <= u64::MAX,
        orderly(steps),
    ensures
        Run::<C, R>::start().run(steps).consistent(),
        Run::<C, R>::start().run(steps).issued.len() <= steps.len(),
    decreases steps.len(),
{
    if steps.len() == 0 {
        let r = Run::<C, R>::start();
        assert(r.issued.skip(0) =~= r.channel.outstanding());
        assert(r.claimed =~= r.issued.take(0));
    } else {
        assert(orderly(steps.drop_last())) by {
            let before = steps.drop_last();
            assert forall|k: int| 0 <= k < before.len() implies {
                &&& !(#[trigger] before[k] is Abandon)
                &&& !(before[k] is Close)
            } by {
                assert(before[k] == steps[k]);
            }
        }
        lemma_run_consistent(steps.drop_last());
        assert(steps.last() == steps[steps.len() - 1]);
        lemma_step_consistent(Run::<C, R>::start().run(steps.drop_last()), steps.last());
    }
}

/// As long as no issuer gives up and the receiver stays, requests and
/// answers are matched in the order in which the requests were issued,
/// however the steps of the issuers and of the receiver fall in between each
/// other: the receiver is handed each request once, in call order, none
/// skipped, and the `i`-th exchange that an issuer collects holds the `i`-th
/// request that was issued, its ticket `i`, and the `i`-th answer that the
/// receiver gave. This holds of every such sequence of steps on a fresh
/// channel that is shorter than 2^64 steps, so that tickets do not run out.
pub proof fn law_exchanges_match_in_order<C, R>(steps: Seq<Step<C, R>>)
    requires
        steps.len() <= u64::MAX,
        orderly(steps),
    ensures
        Run::<C, R>::start().run(steps).in_order(),
        Run::<C, R>::start().run(steps).matched(),
        !Run::<C, R>::start().run(steps).channel.closed,
{
    lemma_run_consistent(steps);
}

/// The steps by which one request is served: the receiver claims it and
/// answers with `response`, and the issuer of the `i`-th request collects.
pub open spec fn round<C, R>(i: int, response: R) -> Seq<Step<C, R>> {
    seq![Step::Receive, Step::Respond(response), Step::Poll(i)]
}

/// The steps by which every command is issued, in order.
pub open spec fn issue_all<C, R>(commands: Seq<C>) -> Seq<Step<C, R>>
    decreases commands.len(),
{
    if commands.len() == 0 {
        Seq::empty()
    } else {
        issue_all(commands.drop_last()).push(Step::Execute(commands.last()))
    }
}

/// One round for each response, in order, for the requests that were issued
/// as number `first` and after.
pub open spec fn serve_all<C, R>(first: int, responses: Seq<R>) -> Seq<Step<C, R>>
    decreases responses.len(),
{
    if responses.len() == 0 {
        Seq::empty()
    } else {
        serve_all(first, responses.drop_last()) + round(
            first + responses.len() - 1,
            responses.last(),
        )
    }
}

/// All commands are issued before the first is served, as when many tasks
/// call at once; then one round for each response.
pub open spec fn concurrent_schedule<C, R>(commands: Seq<C>, responses: Seq<R>) -> Seq<
    Step<C, R>,
> {
    issue_all(commands) + serve_all(0, responses)
}

/// Each command is issued and served before the next is issued.
pub open spec fn sequential_schedule<C, R>(commands: Seq<C>, responses: Seq<R>) -> Seq<
    Step<C, R>,
>
    decreases commands.len(),
{
    if commands.len() == 0 {
        Seq::empty()
    } else {
        sequential_schedule(commands.drop_last(), responses.drop_last()).push(
            Step::Execute(commands.last()),
        ) + round(commands.len() - 1, responses.last())
    }
}

/// The exchanges that pair the `i`-th command with the `i`-th response under
/// ticket `i`.
pub open spec fn paired<C, R>(commands: Seq<C>, responses: Seq<R>) -> Seq<(u64, C, R)> {
    Seq::new(commands.len(), |i: int| (i as u64, commands[i], responses[i]))
}

/// Running two sequences of steps one after the other is running their
/// concatenation.
proof fn lemma_run_concat<C, R>(r: Run<C, R>, first: Seq<Step<C, R>>, second: Seq<Step<C, R>>)
    ensures
        r.run(first + second) == r.run(first).run(second),
    decreases second.len(),
{
    if second.len() == 0 {
        assert(first + second =~= first);
    } else {
        lemma_run_concat(r, first, second.drop_last());
        assert((first + second).drop_last() =~= first + second.drop_last());
        assert((first + second).last() == second.last());
    }
}

/// Running one more step after a sequence of steps.
proof fn lemma_run_push<C, R>(r: Run<C, R>, steps: Seq<Step<C, R>>, step: Step<C, R>)
    ensures
        r.run(steps.push(step)) == r.run(steps).step(step),
{
    assert(steps.push(step).drop_last() =~= steps);
}

/// Running a round is taking its three steps.
proof fn lemma_run_round<C, R>(r: Run<C, R>, i: int, response: R)
    ensures
        r.run(round(i, response)) == r.step(Step::Receive).step(Step::Respond(response)).step(
            Step::Poll(i),
        ),
{
    let none = Seq::<Step<C, R>>::empty();
    let one = none.push(Step::Receive);
    let two = one.push(Step::Respond(response));
    assert(r.run(none) == r);
    lemma_run_push(r, none, Step::Receive);
    lemma_run_push(r, one, Step::Respond(response));
    lemma_run_push(r, two, Step::Poll(i));
    assert(two.push(Step::Poll(i)) =~= round::<C, R>(i, response));
}

/// The record of a run on which every claimed request has been collected.
spec fn settled<C, R>(r: Run<C, R>, issued: int, served: int) -> bool {
    &&& r.consistent()
    &&& r.issued.len() == issued
    &&& r.claimed.len() == served
    &&& r.answers.len() == served
    &&& r.exchanges.len() == served
}

/// Issuing a command on a settled run adds it to the record and to nothing
/// else.
proof fn lemma_execute_settled<C, R>(r: Run<C, R>, issued: int, served: int, command: C)
    requires
        settled(r, issued, served),
        issued < u64::MAX,
    ensures
        settled(r.step(Step::Execute(command)), issued + 1, served),
        r.step(Step::Execute(command)).issued == r.issued.push((issued as u64, command)),
        r.step(Step::Execute(command)).answers == r.answers,
        r.step(Step::Execute(command)).exchanges == r.exchanges,
{
    lemma_step_consistent(r, Step::Execute(command));
}

/// A round on a settled run with a request left to serve resolves the oldest
/// such request with the response given.
proof fn lemma_round_settled<C, R>(r: Run<C, R>, issued: int, served: int, response: R)
    requires
        settled(r, issued, served),
        served < issued < u64::MAX,
    ensures
        settled(r.run(round(served, response)), issued, served + 1),
        r.run(round(served, response)).issued == r.issued,
        r.run(round(served, response)).answers == r.answers.push((served as u64, response)),
        r.run(round(served, response)).exchanges == r.exchanges.push(
            (r.issued[served].0, r.issued[served].1, response),
        ),
{
    lemma_run_round(r, served, response);
    let r1 = r.step(Step::Receive);
    lemma_step_consistent(r, Step::Receive);
    assert(r.channel.outstanding()[0] == r.issued.skip(served)[0]);
    assert(r.channel.claimable());
    let r2 = r1.step(Step::Respond(response));
    lemma_step_consistent(r1, Step::Respond(response));
    assert(r1.channel.outstanding()[0] == r1.issued.skip(served)[0]);
    let r3 = r2.step(Step::Poll(served));
    lemma_step_consistent(r2, Step::Poll(served));
    assert(r2.channel.outstanding()[0] == r2.issued.skip(served)[0]);
}

/// After all commands have been issued on a fresh channel, the record holds
/// them with their tickets, and nothing has been served.
proof fn lemma_issue_all<C, R>(commands: Seq<C>)
    requires
        commands.len() <= u64::MAX,
    ensures
        settled(Run::<C, R>::start().run(issue_all(commands)), commands.len() as int, 0),
        Run::<C, R>::start().run(issue_all(commands)).issued == Seq::new(
            commands.len(),
            |i: int| (i as u64, commands[i]),
        ),
    decreases commands.len(),
{
    let start = Run::<C, R>::start();
    if commands.len() == 0 {
        lemma_run_consistent(Seq::<Step<C, R>>::empty());
        assert(start.issued =~= Seq::new(commands.len(), |i: int| (i as u64, commands[i])));
    } else {
        let before = commands.drop_last();
        lemma_issue_all::<C, R>(before);
        let r = start.run(issue_all(before));
        lemma_run_push(start, issue_all(before), Step::Execute(commands.last()));
        lemma_execute_settled(r, before.len() as int, 0, commands.last());
        assert(r.issued.push((before.len() as u64, commands.last())) =~= Seq::new(
            commands.len(),
            |i: int| (i as u64, commands[i]),
        ));
    }
}

/// Serving the first requests of a run on which all commands have been
/// issued and none served pairs each with its response.
proof fn lemma_serve_all<C, R>(r: Run<C, R>, commands: Seq<C>, responses: Seq<R>)
    requires
        settled(r, commands.len() as int, 0),
        r.issued == Seq::new(commands.len(), |i: int| (i as u64, commands[i])),
        responses.len() <= commands.len() < u64::MAX,
    ensures
        settled(
            r.run(serve_all(0, responses)),
            commands.len() as int,
            responses.len() as int,
        ),
        r.run(serve_all(0, responses)).issued == r.issued,
        r.run(serve_all(0, responses)).exchanges == paired(commands, responses).take(
            responses.len() as int,
        ),
    decreases responses.len(),
{
    if responses.len() == 0 {
        assert(r.exchanges =~= paired(commands, responses).take(0));
    } else {
        let before = responses.drop_last();
        let j = before.len() as int;
        lemma_serve_all(r, commands, before);
        let served = r.run(serve_all(0, before));
        lemma_run_concat(r, serve_all(0, before), round(j, responses.last()));
        lemma_round_settled(served, commands.len() as int, j, responses.last());
        assert(paired(commands, before).take(j).push((j as u64, commands[j], responses.last()))
            =~= paired(commands, responses).take(responses.len() as int));
    }
}

/// When every command is issued before the first is served, as when many
/// tasks call at once, and each request is then claimed, answered and
/// collected in turn, exactly one exchange comes out for each command, none
/// twice and none missing: the `i`-th pairs the `i`-th command with the
/// `i`-th response under ticket `i`, and the channel is idle at the end.
/// This holds of every number of commands below 2^64, so that tickets do not
/// run out.
pub proof fn law_concurrent_requests_all_served<C, R>(commands: Seq<C>, responses: Seq<R>)
    requires
        commands.len() == responses.len(),
        commands.len() < u64::MAX,
    ensures
        Run::<C, R>::start().run(concurrent_schedule(commands, responses)).exchanges == paired(
            commands,
            responses,
        ),
        Run::<C, R>::start().run(concurrent_schedule(commands, responses)).channel.is_idle(),
{
    let start = Run::<C, R>::start();
    lemma_issue_all::<C, R>(commands);
    let issued = start.run(issue_all(commands));
    lemma_serve_all(issued, commands, responses);
    lemma_run_concat(start, issue_all(commands), serve_all(0, responses));
    let done = issued.run(serve_all(0, responses));
    assert(paired(commands, responses).take(responses.len() as int) =~= paired(
        commands,
        responses,
    ));
    assert(done.issued.skip(commands.len() as int).len() == 0);
}

/// After the first commands have each been issued and served in turn, the
/// record pairs each with its response.
proof fn lemma_sequential<C, R>(commands: Seq<C>, responses: Seq<R>)
    requires
        commands.len() == responses.len(),
        commands.len() < u64::MAX,
    ensures
        settled(
            Run::<C, R>::start().run(sequential_schedule(commands, responses)),
            commands.len() as int,
            commands.len() as int,
        ),
        Run::<C, R>::start().run(sequential_schedule(commands, responses)).exchanges == paired(
            commands,
            responses,
        ),
    decreases commands.len(),
{
    let start = Run::<C, R>::start();
    if commands.len() == 0 {
        lemma_run_consistent(Seq::<Step<C, R>>::empty());
        assert(start.exchanges =~= paired(commands, responses));
    } else {
        let n = commands.len() - 1;
        let before = sequential_schedule(commands.drop_last(), responses.drop_last());
        lemma_sequential(commands.drop_last(), responses.drop_last());
        let r = start.run(before);
        let execute = Step::Execute(commands.last());
        lemma_run_concat(start, before.push(execute), round(n, responses.last()));
        lemma_run_push(start, before, execute);
        lemma_execute_settled(r, n, n, commands.last());
        lemma_round_settled(r.step(execute), n + 1, n, responses.last());
        assert(paired(commands.drop_last(), responses.drop_last()).push(
            (n as u64, commands.last(), responses.last()),
        ) =~= paired(commands, responses));
    }
}

/// When each command is issued and then claimed, answered and collected
/// before the next is issued, exactly one exchange comes out for each
/// command, none twice and none missing: the `i`-th pairs the `i`-th command
/// with the `i`-th response under ticket `i`, and the channel is idle at
/// the end. This holds of every number of commands below 2^64, so that
/// tickets do not run out.
pub proof fn law_sequential_requests_all_served<C, R>(commands: Seq<C>, responses: Seq<R>)
    requires
        commands.len() == responses.len(),
        commands.len() < u64::MAX,
    ensures
        Run::<C, R>::start().run(sequential_schedule(commands, responses)).exchanges == paired(
            commands,
            responses,
        ),
        Run::<C, R>::start().run(sequential_schedule(commands, responses)).channel.is_idle(),
{
    lemma_sequential(commands, responses);
    let done = Run::<C, R>::start().run(sequential_schedule(commands, responses));
    assert(done.issued.skip(commands.len() as int).len() == 0);
}

} // verus!
