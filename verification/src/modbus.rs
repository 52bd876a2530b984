//! The transaction serialization layer: the queries and responses that
//! travel between sensors and the bus worker, the transport error taxonomy,
//! the FIFO queue model that guarantees exclusive, ordered access to the
//! single serial bus with per-caller response routing, and the assembly of
//! per-run bus responses into one word list.

use crate::sensor::SensorError;
use vstd::prelude::*;

verus! {

/// One bus request: read the given registers (compacted into runs before
/// they reach the wire) or write one value to one register.
#[derive(Debug, PartialEq)]
pub enum Query {
    Read(Vec<u16>),
    Write((u16, u16)),
}

/// The reply to a [`Query`]: the words read, or the acknowledgement of a
/// write.
#[derive(Debug, PartialEq)]
pub enum Response {
    Read(Vec<u16>),
    Write(()),
}

/// A failure raised by the bus transport and propagated unmodified to the
/// caller whose request was in flight; it is never retried at this layer.
#[derive(Clone, Copy, Debug, PartialEq, Eq, Structural)]
pub enum TransportError {
    /// An I/O failure on the serial link.
    Io,
    /// A response with fewer or more words than the request asked for.
    ResponseLength,
    /// The transport's own timeout elapsed.
    Timeout,
}

/// A queued request paired with the ticket under which its reply is routed
/// back to the submitting caller.
pub struct PendingTransaction {
    pub ticket: u64,
    pub query: Query,
}

/// The ghost-level state of the serializer: the pending queue in arrival
/// order, the next unused ticket, and whether the mailbox still accepts
/// submissions.
pub struct SerializerModel {
    pub queue: Seq<PendingTransaction>,
    pub next_ticket: u64,
    pub accepting: bool,
}

impl SerializerModel {
    /// Tickets strictly increase along the queue and stay below the next
    /// unused ticket, so every pending request is identified uniquely.
    pub open spec fn wf(self) -> bool {
        &&& forall|i: int, j: int|
            0 <= i < j < self.queue.len() ==> (#[trigger] self.queue[i]).ticket < (
            #[trigger] self.queue[j]).ticket
        &&& forall|i: int|
            0 <= i < self.queue.len() ==> (#[trigger] self.queue[i]).ticket < self.next_ticket
    }
}

/// What submitting a query does to the serializer state: a closed mailbox
/// refuses immediately, as does one whose ticket space is exhausted;
/// otherwise the request is appended under a fresh ticket.
pub open spec fn spec_submit(m: SerializerModel, query: Query) -> (SerializerModel, Result<
    u64,
    SensorError,
>) {
    if !m.accepting || m.next_ticket == u64::MAX {
        (m, Err(SensorError::SerializerUnavailable))
    } else {
        (
            SerializerModel {
                queue: m.queue.push(PendingTransaction { ticket: m.next_ticket, query }),
                next_ticket: (m.next_ticket + 1) as u64,
                accepting: true,
            },
            Ok(m.next_ticket),
        )
    }
}

/// What completing the in-flight transaction does: the head request leaves
/// the queue and its outcome — success or failure alike — is routed to the
/// head's ticket; the rest of the queue is untouched.
pub open spec fn spec_complete(m: SerializerModel, outcome: Result<Response, TransportError>) -> (
    SerializerModel,
    Option<(u64, Result<Response, TransportError>)>,
) {
    if m.queue.len() == 0 {
        (m, None)
    } else {
        (
            SerializerModel {
                queue: m.queue.drop_first(),
                next_ticket: m.next_ticket,
                accepting: m.accepting,
            },
            Some((m.queue[0].ticket, outcome)),
        )
    }
}

/// The serializer's bookkeeping: a FIFO mailbox of pending transactions.
/// Exactly one worker drains it, so it is the sole
/// mutual-exclusion boundary in front of the bus; callers suspend on the
/// ticket they get back until the worker completes their transaction.
pub struct Serializer {
    queue: Vec<PendingTransaction>,
    next_ticket: u64,
    accepting: bool,
}

impl Serializer {
    /// The abstract state this serializer is in.
    pub closed spec fn model(self) -> SerializerModel {
        SerializerModel {
            queue: self.queue@,
            next_ticket: self.next_ticket,
            accepting: self.accepting,
        }
    }

    /// A fresh serializer: empty queue, accepting submissions.
    pub fn new() -> (s: Serializer)
        ensures
            s.model().wf(),
            s.model().queue.len() == 0,
            s.model().accepting,
            s.model().next_ticket == 0,
    {
        Serializer { queue: Vec::new(), next_ticket: 0, accepting: true }
    }

    /// How many requests are pending.
    pub fn pending(&self) -> (n: usize)
        ensures
            n == self.model().queue.len(),
    {
        self.queue.len()
    }

    /// Enqueues a request and hands back the ticket under which its reply
    /// will be routed; fails immediately when the mailbox is closed or the
    /// ticket space is exhausted.
    pub fn submit(&mut self, query: Query) -> (r: Result<u64, SensorError>)
        requires
            old(self).model().wf(),
        ensures
            final(self).model().wf(),
            (final(self).model(), r) == spec_submit(old(self).model(), query),
    {
        if !self.accepting || self.next_ticket == u64::MAX {
            return Err(SensorError::SerializerUnavailable);
        }
        let ticket = self.next_ticket;
        self.queue.push(PendingTransaction { ticket, query });
        self.next_ticket = self.next_ticket + 1;
        Ok(ticket)
    }

    /// Closes the mailbox, as process shutdown does: requests already queued
    /// will still be completed, later submissions fail immediately.
    pub fn close(&mut self)
        ensures
            final(self).model() == (SerializerModel {
                accepting: false,
                ..old(self).model()
            }),
    {
        self.accepting = false;
    }

    /// The request the worker must execute next: the head of the queue,
    /// strictly first-in-first-out.
    pub fn head(&self) -> (r: Option<&PendingTransaction>)
        ensures
            match r {
                Some(p) => self.model().queue.len() > 0 && *p == self.model().queue[0],
                None => self.model().queue.len() == 0,
            },
    {
        if self.queue.len() == 0 {
            None
        } else {
            Some(&self.queue[0])
        }
    }

    /// Removes the head request and routes the outcome of its bus
    /// transaction to its ticket. A transport failure is routed the same way
    /// as a success, and the rest of the queue is untouched, so the next
    /// queued request remains ready to execute.
    pub fn complete(&mut self, outcome: Result<Response, TransportError>) -> (r: Option<
        (u64, Result<Response, TransportError>),
    >)
        requires
            old(self).model().wf(),
        ensures
            final(self).model().wf(),
            (final(self).model(), r) == spec_complete(old(self).model(), outcome),
    {
        if self.queue.len() == 0 {
            return None;
        }
        let head = self.queue.remove(0);
        Some((head.ticket, outcome))
    }
}

/// The serializer state after a batch of submissions, together with the
/// per-caller results, in submission order.
pub open spec fn spec_submit_all(m: SerializerModel, qs: Seq<Query>) -> (
    SerializerModel,
    Seq<Result<u64, SensorError>>,
)
    decreases qs.len(),
{
    if qs.len() == 0 {
        (m, Seq::empty())
    } else {
        let first = spec_submit(m, qs[0]);
        let rest = spec_submit_all(first.0, qs.drop_first());
        (rest.0, seq![first.1] + rest.1)
    }
}

/// The serializer state after a batch of completions, together with the
/// routed replies, in completion order.
pub open spec fn spec_complete_all(
    m: SerializerModel,
    outcomes: Seq<Result<Response, TransportError>>,
) -> (SerializerModel, Seq<Option<(u64, Result<Response, TransportError>)>>)
    decreases outcomes.len(),
{
    if outcomes.len() == 0 {
        (m, Seq::empty())
    } else {
        let first = spec_complete(m, outcomes[0]);
        let rest = spec_complete_all(first.0, outcomes.drop_first());
        (rest.0, seq![first.1] + rest.1)
    }
}

/// A batch of submissions to an accepting serializer with ticket headroom
/// all succeed, receive the consecutive tickets starting at the next unused
/// one, and append their requests to the queue in submission order.
proof fn lemma_submit_all(m: SerializerModel, qs: Seq<Query>)
    requires
        m.wf(),
        m.accepting,
        m.next_ticket + qs.len() <= u64::MAX,
    ensures
        ({
            let (m1, tickets) = spec_submit_all(m, qs);
            &&& m1.wf()
            &&& m1.accepting
            &&& m1.next_ticket == m.next_ticket + qs.len()
            &&& m1.queue.len() == m.queue.len() + qs.len()
            &&& forall|i: int| 0 <= i < m.queue.len() ==> m1.queue[i] == m.queue[i]
            &&& forall|i: int|
                0 <= i < qs.len() ==> m1.queue[m.queue.len() + i] == (PendingTransaction {
                    ticket: (m.next_ticket + i) as u64,
                    query: qs[i],
                })
            &&& tickets.len() == qs.len()
            &&& forall|i: int|
                0 <= i < qs.len() ==> tickets[i] == Ok::<u64, SensorError>(
                    (m.next_ticket + i) as u64,
                )
        }),
    decreases qs.len(),
{
    if qs.len() > 0 {
        let (ma, t0) = spec_submit(m, qs[0]);
        assert(ma.wf()) by {
            assert(forall|i: int|
                0 <= i < m.queue.len() ==> ma.queue[i] == m.queue[i] && (
                #[trigger] ma.queue[i]).ticket < m.next_ticket);
            assert(ma.queue[m.queue.len() as int].ticket == m.next_ticket);
        }
        lemma_submit_all(ma, qs.drop_first());
        let (m1, tickets) = spec_submit_all(m, qs);
        let (mrest, trest) = spec_submit_all(ma, qs.drop_first());
        assert(m1 == mrest);
        assert(tickets == seq![t0] + trest);
        assert forall|i: int|
            0 <= i < qs.len() implies m1.queue[m.queue.len() + i] == (PendingTransaction {
                ticket: (m.next_ticket + i) as u64,
                query: qs[i],
            }) by {
            if i == 0 {
                assert(m1.queue[m.queue.len() as int] == ma.queue[m.queue.len() as int]);
            } else {
                assert(m1.queue[ma.queue.len() + (i - 1)] == (PendingTransaction {
                    ticket: (ma.next_ticket + (i - 1)) as u64,
                    query: qs.drop_first()[i - 1],
                }));
            }
        }
        assert forall|i: int|
            0 <= i < qs.len() implies tickets[i] == Ok::<u64, SensorError>(
            (m.next_ticket + i) as u64,
        ) by {
            if i > 0 {
                assert(trest[i - 1] == Ok::<u64, SensorError>((ma.next_ticket + (i - 1)) as u64));
            }
        }
    }
}

/// A batch of completions serves the pending requests strictly first-in
/// first-out: the j-th completion is routed to the j-th queued ticket with
/// the j-th outcome, whatever the outcomes are, and the rest of the queue
/// survives untouched.
proof fn lemma_complete_all(m: SerializerModel, outcomes: Seq<Result<Response, TransportError>>)
    requires
        m.wf(),
        outcomes.len() <= m.queue.len(),
    ensures
        ({
            let (m2, routed) = spec_complete_all(m, outcomes);
            &&& routed.len() == outcomes.len()
            &&& forall|j: int|
                0 <= j < outcomes.len() ==> routed[j] == Some(
                    (m.queue[j].ticket, outcomes[j]),
                )
            &&& m2.queue =~= m.queue.skip(outcomes.len() as int)
            &&& m2.wf()
            &&& m2.next_ticket == m.next_ticket
            &&& m2.accepting == m.accepting
        }),
    decreases outcomes.len(),
{
    if outcomes.len() > 0 {
        let (ma, r0) = spec_complete(m, outcomes[0]);
        assert(ma.wf()) by {
            assert(forall|i: int| 0 <= i < ma.queue.len() ==> ma.queue[i] == m.queue[i + 1]);
        }
        lemma_complete_all(ma, outcomes.drop_first());
        let (m2, routed) = spec_complete_all(m, outcomes);
        let (mrest, rrest) = spec_complete_all(ma, outcomes.drop_first());
        assert(m2 == mrest);
        assert(routed == seq![r0] + rrest);
        assert forall|j: int|
            0 <= j < outcomes.len() implies routed[j] == Some(
            (m.queue[j].ticket, outcomes[j]),
        ) by {
            if j > 0 {
                assert(rrest[j - 1] == Some(
                    (ma.queue[j - 1].ticket, outcomes.drop_first()[j - 1]),
                ));
                assert(ma.queue[j - 1] == m.queue[j]);
            }
        }
        assert(m2.queue =~= m.queue.skip(outcomes.len() as int)) by {
            assert(mrest.queue =~= ma.queue.skip(outcomes.len() - 1));
        }
    } else {
        assert(spec_complete_all(m, outcomes).0.queue =~= m.queue.skip(0));
    }
}

/// No cross-talk among any number of concurrent callers: however many
/// requests reach the mailbox, every submission gets its own fresh ticket,
/// the worker serves them strictly in arrival order, and the j-th caller
/// receives exactly the j-th bus outcome under its own ticket — no reply is
/// ever routed to a different requester.
pub proof fn lemma_no_cross_talk_general(
    m0: SerializerModel,
    qs: Seq<Query>,
    outcomes: Seq<Result<Response, TransportError>>,
)
    requires
        m0.wf(),
        m0.accepting,
        m0.queue.len() == 0,
        outcomes.len() == qs.len(),
        m0.next_ticket + qs.len() <= u64::MAX,
    ensures
        ({
            let (m1, tickets) = spec_submit_all(m0, qs);
            let (m2, routed) = spec_complete_all(m1, outcomes);
            &&& tickets.len() == qs.len()
            &&& routed.len() == qs.len()
            &&& forall|i: int|
                0 <= i < qs.len() ==> tickets[i] == Ok::<u64, SensorError>(
                    (m0.next_ticket + i) as u64,
                )
            &&& forall|i: int, j: int|
                0 <= i < j < qs.len() ==> #[trigger] tickets[i] != #[trigger] tickets[j]
            &&& forall|j: int|
                0 <= j < qs.len() ==> routed[j] == Some(
                    ((m0.next_ticket + j) as u64, outcomes[j]),
                )
            &&& m2.queue.len() == 0
        }),
{
    lemma_submit_all(m0, qs);
    let (m1, tickets) = spec_submit_all(m0, qs);
    lemma_complete_all(m1, outcomes);
    let (m2, routed) = spec_complete_all(m1, outcomes);
    assert forall|j: int|
        0 <= j < qs.len() implies routed[j] == Some(
        ((m0.next_ticket + j) as u64, outcomes[j]),
    ) by {
        assert(m1.queue[j] == (PendingTransaction {
            ticket: (m0.next_ticket + j) as u64,
            query: qs[j],
        }));
    }
    assert(m2.queue =~= m1.queue.skip(qs.len() as int));
}

/// No cross-talk between concurrent callers: two requests reaching the
/// mailbox in some order get distinct tickets, are executed strictly in
/// that order, and each submitter receives exactly the outcome of its own
/// bus transaction, regardless of what the two outcomes are.
pub proof fn lemma_no_cross_talk(
    m0: SerializerModel,
    qa: Query,
    qb: Query,
    ra: Result<Response, TransportError>,
    rb: Result<Response, TransportError>,
)
    requires
        m0.wf(),
        m0.accepting,
        m0.queue.len() == 0,
        m0.next_ticket + 1 < u64::MAX,
    ensures
        ({
            let (m1, sa) = spec_submit(m0, qa);
            let (m2, sb) = spec_submit(m1, qb);
            let (m3, ca) = spec_complete(m2, ra);
            let (m4, cb) = spec_complete(m3, rb);
            &&& sa == Ok::<u64, SensorError>(m0.next_ticket)
            &&& sb == Ok::<u64, SensorError>((m0.next_ticket + 1) as u64)
            &&& sa != sb
            &&& ca == Some((m0.next_ticket, ra))
            &&& cb == Some(((m0.next_ticket + 1) as u64, rb))
            &&& m4.queue.len() == 0
        }),
{
    let (m1, sa) = spec_submit(m0, qa);
    let (m2, sb) = spec_submit(m1, qb);
    let (m3, ca) = spec_complete(m2, ra);
    let (m4, cb) = spec_complete(m3, rb);
    assert(m2.queue[0] == PendingTransaction { ticket: m0.next_ticket, query: qa });
    assert(m2.queue[1] == PendingTransaction {
        ticket: (m0.next_ticket + 1) as u64,
        query: qb,
    });
    assert(m3.queue[0] == m2.queue[1]);
    assert(m4.queue =~= Seq::<PendingTransaction>::empty());
}

/// A newly submitted request gets a ticket that no pending request holds,
/// so however many callers race on the mailbox, no reply can ever be routed
/// to the wrong one.
pub proof fn lemma_fresh_ticket(m: SerializerModel, query: Query)
    requires
        m.wf(),
        m.accepting,
        m.next_ticket < u64::MAX,
    ensures
        ({
            let (m1, s) = spec_submit(m, query);
            &&& s == Ok::<u64, SensorError>(m.next_ticket)
            &&& forall|i: int|
                0 <= i < m.queue.len() ==> (#[trigger] m.queue[i]).ticket != m.next_ticket
            &&& m1.queue.len() == m.queue.len() + 1
            &&& m1.queue[m.queue.len() as int].query == query
        }),
{
}

/// Failure isolation: a transport failure on the request in flight is
/// routed to that request's caller alone. The rest of the queue is exactly
/// what it was, so the next queued request executes next, under its own
/// ticket, as if the failure had not happened.
pub proof fn lemma_failure_isolation(
    m: SerializerModel,
    err: TransportError,
    next_outcome: Result<Response, TransportError>,
)
    requires
        m.wf(),
        m.queue.len() >= 2,
    ensures
        ({
            let (m1, c1) = spec_complete(m, Err(err));
            let (m2, c2) = spec_complete(m1, next_outcome);
            &&& c1 == Some((m.queue[0].ticket, Err::<Response, TransportError>(err)))
            &&& m1.queue == m.queue.drop_first()
            &&& m1.accepting == m.accepting
            &&& c2 == Some((m.queue[1].ticket, next_outcome))
            &&& m.queue[0].ticket != m.queue[1].ticket
        }),
{
    let (m1, c1) = spec_complete(m, Err(err));
    assert(m1.queue[0] == m.queue[1]);
}

/// Concatenates the per-run responses of one compacted read request, in run
/// order, into the single word list the caller asked for; a response whose
/// length differs from its run's count is a transport failure, exactly as
/// the bus would signal a malformed reply.
pub fn assemble_read(runs: &Vec<(u16, u16)>, results: Vec<Vec<u16>>) -> (r: Result<
    Vec<u16>,
    TransportError,
>)
    ensures
        r matches Ok(words) ==> results.deep_view().len() == runs@.len() && (forall|j: int|
            0 <= j < runs@.len() ==> (#[trigger] results.deep_view()[j]).len() == runs@[j].1)
            && words@ == results.deep_view().flatten(),
        r matches Err(e) ==> e == TransportError::ResponseLength && (results.deep_view().len()
            != runs@.len() || exists|j: int|
            0 <= j < runs@.len() && (#[trigger] results.deep_view()[j]).len() != runs@[j].1),
{
    if results.len() != runs.len() {
        return Err(TransportError::ResponseLength);
    }
    let mut out: Vec<u16> = Vec::new();
    let mut i: usize = 0;
    while i < runs.len()
        invariant
            i <= runs@.len(),
            results@.len() == runs@.len(),
            forall|j: int| 0 <= j < i ==> (#[trigger] results.deep_view()[j]).len() == runs@[j].1,
            out@ == results.deep_view().take(i as int).flatten(),
        decreases runs@.len() - i,
    {
        let chunk = &results[i];
        proof {
            assert(results.deep_view()[i as int] =~= results@[i as int]@);
        }
        if chunk.len() != runs[i].1 as usize {
            proof {
                assert(results.deep_view()[i as int].len() != runs@[i as int].1);
            }
            return Err(TransportError::ResponseLength);
        }
        let mut k: usize = 0;
        while k < chunk.len()
            invariant
                k <= chunk@.len(),
                out@ == results.deep_view().take(i as int).flatten() + chunk@.take(k as int),
                i < results@.len(),
                chunk == &results[i as int],
            decreases chunk@.len() - k,
        {
            proof {
                assert(chunk@.take(k as int + 1) =~= chunk@.take(k as int).push(chunk@[k as int]));
            }
            out.push(chunk[k]);
            k += 1;
        }
        proof {
            broadcast use Seq::group_seq_flatten;

            let ghost all = results.deep_view();
            assert(all[i as int] =~= chunk@);
            assert(chunk@.take(chunk@.len() as int) =~= chunk@);
            assert(all.take(i as int + 1) =~= all.take(i as int).push(all[i as int]));
            assert(all.take(i as int).push(all[i as int]).flatten() == all.take(i as int).flatten()
                + all[i as int]);
            assert(out@ == all.take(i as int + 1).flatten());
        }
        i += 1;
    }
    proof {
        assert(results.deep_view().take(runs@.len() as int) =~= results.deep_view());
    }
    Ok(out)
}

} // verus!
