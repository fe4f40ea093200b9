//! The inbound pump: drains the datagrams waiting on the transport into the
//! connection, or tells the connection that its timer ran out.
//!
//! Like the outbound pump it only decides. One pass starts with
//! [`InboundEvent::Woken`], which carries what the readiness wait saw, and is
//! over at the first step that is [`InboundStep::Finished`] or
//! [`InboundStep::Abort`].

use vstd::prelude::*;
use crate::peer::PeerAddr;

verus! {

/// The size of the buffer that one datagram, or one stream read, is received
/// into: the largest UDP payload.
pub const RECV_BUFFER_SIZE: usize = 65535;

/// What the transport answered to a read.
#[derive(Clone, Copy, Debug, PartialEq, Eq)]
pub enum Arrival {
    /// A datagram of `len` bytes now stands at the start of the buffer. An
    /// unconnected socket also tells where it came from.
    Datagram { len: usize, from: Option<PeerAddr> },
    /// Nothing is waiting.
    WouldBlock,
    /// Any other failure.
    Failed,
}

/// What the connection answered when it was fed a datagram.
#[derive(Clone, Copy, Debug, PartialEq, Eq)]
pub enum Ingest {
    /// It processed `len` bytes.
    Consumed { len: usize },
    /// It has nothing to process in this buffer.
    Done,
    /// It rejected the datagram.
    Failed,
}

/// What the caller reports to the pump.
#[derive(Clone, Copy, Debug, PartialEq, Eq)]
pub enum InboundEvent {
    /// A pass starts after a readiness wait. `readable` is false when the
    /// wait ended with no event at all, that is when the deadline passed.
    Woken { readable: bool },
    /// The connection's timeout callback has run.
    TimeoutHandled,
    /// The answer to [`InboundStep::Read`].
    Arrival(Arrival),
    /// The answer to [`InboundStep::Feed`].
    Ingest(Ingest),
}

/// What the pump asks of its caller.
#[derive(Clone, Copy, Debug, PartialEq, Eq)]
pub enum InboundStep {
    /// Run the connection's timeout callback.
    Timeout,
    /// Read one datagram from the transport into a buffer of `capacity`
    /// bytes, without blocking.
    Read { capacity: usize },
    /// Feed the first `len` bytes of that buffer to the connection.
    Feed { len: usize },
    /// The pass is over.
    Finished,
    /// The transport is broken: the process cannot go on.
    Abort,
}

impl Arrival {
    /// True unless the answer reports a datagram longer than the buffer it
    /// was read into.
    pub open spec fn fits(self) -> bool {
        self matches Arrival::Datagram { len, .. } ==> len <= RECV_BUFFER_SIZE
    }

    /// The source of the datagram, if the answer is a datagram with one.
    pub open spec fn source(self) -> Option<PeerAddr> {
        match self {
            Arrival::Datagram { from, .. } => from,
            _ => None,
        }
    }
}

impl InboundEvent {
    /// True unless the event carries an answer that does not fit.
    pub open spec fn fits(self) -> bool {
        self matches InboundEvent::Arrival(arrival) ==> arrival.fits()
    }

    /// The source of the datagram that the event reports, if any.
    pub open spec fn source(self) -> Option<PeerAddr> {
        match self {
            InboundEvent::Arrival(arrival) => arrival.source(),
            _ => None,
        }
    }
}

impl InboundStep {
    /// True for the two steps that end a pass.
    pub open spec fn is_final(self) -> bool {
        self is Finished || self is Abort
    }
}

/// The step that follows `event`.
///
/// A wait that saw nothing is a timeout: the callback runs and the pass ends
/// without a read. Otherwise datagrams are read and fed one by one until the
/// transport would block. A connection that has nothing to process, or that
/// rejects a datagram, ends the pass; the session then rests on the
/// connection's own error state. A transport that fails in any other way
/// ends the process.
pub open spec fn inbound_next(event: InboundEvent) -> InboundStep {
    match event {
        InboundEvent::Woken { readable } => if readable {
            InboundStep::Read { capacity: RECV_BUFFER_SIZE }
        } else {
            InboundStep::Timeout
        },
        InboundEvent::TimeoutHandled => InboundStep::Finished,
        InboundEvent::Arrival(Arrival::Datagram { len, .. }) => InboundStep::Feed { len },
        InboundEvent::Arrival(Arrival::WouldBlock) => InboundStep::Finished,
        InboundEvent::Arrival(Arrival::Failed) => InboundStep::Abort,
        InboundEvent::Ingest(Ingest::Consumed { .. }) => InboundStep::Read {
            capacity: RECV_BUFFER_SIZE,
        },
        InboundEvent::Ingest(Ingest::Done) => InboundStep::Finished,
        InboundEvent::Ingest(Ingest::Failed) => InboundStep::Finished,
    }
}

/// The peer on record after `event`, when `known` was on record before it:
/// the first source seen stays.
pub open spec fn recorded_peer(known: Option<PeerAddr>, event: InboundEvent) -> Option<PeerAddr> {
    if known is Some {
        known
    } else {
        event.source()
    }
}

/// One decision of the inbound pump on a connected socket.
pub fn recv(event: InboundEvent) -> (step: InboundStep)
    requires
        event.fits(),
    ensures
        step == inbound_next(event),
        step matches InboundStep::Feed { len } ==> len <= RECV_BUFFER_SIZE,
{
    match event {
        InboundEvent::Woken { readable } => if readable {
            InboundStep::Read { capacity: RECV_BUFFER_SIZE }
        } else {
            InboundStep::Timeout
        },
        InboundEvent::TimeoutHandled => InboundStep::Finished,
        InboundEvent::Arrival(arrival) => match arrival {
            Arrival::Datagram { len, .. } => InboundStep::Feed { len },
            Arrival::WouldBlock => InboundStep::Finished,
            Arrival::Failed => InboundStep::Abort,
        },
        InboundEvent::Ingest(ingest) => match ingest {
            Ingest::Consumed { .. } => InboundStep::Read { capacity: RECV_BUFFER_SIZE },
            Ingest::Done => InboundStep::Finished,
            Ingest::Failed => InboundStep::Finished,
        },
    }
}

/// One decision of the inbound pump on an unconnected socket. Besides the
/// next step it gives the peer on record: `known` if there was one, else the
/// source of the datagram that `event` reports.
pub fn recv_from(event: InboundEvent, known: Option<PeerAddr>) -> (next: (
    InboundStep,
    Option<PeerAddr>,
))
    requires
        event.fits(),
    ensures
        next.0 == inbound_next(event),
        next.0 matches InboundStep::Feed { len } ==> len <= RECV_BUFFER_SIZE,
        next.1 == recorded_peer(known, event),
{
    let peer = match known {
        Some(addr) => Some(addr),
        None => match event {
            InboundEvent::Arrival(Arrival::Datagram { from, .. }) => from,
            _ => None,
        },
    };
    (recv(event), peer)
}

/// The steps of the rest of a pass that stands at `step`, when the
/// transport will give the answers `arrivals` and the connection the answers
/// `ingests`, each in the order in which it is asked. The pass stops early,
/// at a step left unanswered, where an answer is missing.
pub open spec fn inbound_steps(
    step: InboundStep,
    arrivals: Seq<Arrival>,
    ingests: Seq<Ingest>,
) -> Seq<InboundStep>
    decreases arrivals.len() + ingests.len(),
{
    match step {
        InboundStep::Timeout => seq![step, inbound_next(InboundEvent::TimeoutHandled)],
        InboundStep::Read { .. } => if arrivals.len() > 0 {
            seq![step] + inbound_steps(
                inbound_next(InboundEvent::Arrival(arrivals[0])),
                arrivals.drop_first(),
                ingests,
            )
        } else {
            seq![step]
        },
        InboundStep::Feed { .. } => if ingests.len() > 0 {
            seq![step] + inbound_steps(
                inbound_next(InboundEvent::Ingest(ingests[0])),
                arrivals,
                ingests.drop_first(),
            )
        } else {
            seq![step]
        },
        InboundStep::Finished => seq![step],
        InboundStep::Abort => seq![step],
    }
}

/// The steps of one whole pass that starts after a wait that was, or was
/// not, `readable`.
pub open spec fn inbound_pass(
    readable: bool,
    arrivals: Seq<Arrival>,
    ingests: Seq<Ingest>,
) -> Seq<InboundStep> {
    inbound_steps(inbound_next(InboundEvent::Woken { readable }), arrivals, ingests)
}

/// The peer on record when the rest of a pass that stands at `step`, with
/// `known` on record, has run against the scripted answers.
pub open spec fn inbound_peer(
    step: InboundStep,
    known: Option<PeerAddr>,
    arrivals: Seq<Arrival>,
    ingests: Seq<Ingest>,
) -> Option<PeerAddr>
    decreases arrivals.len() + ingests.len(),
{
    match step {
        InboundStep::Read { .. } => if arrivals.len() > 0 {
            inbound_peer(
                inbound_next(InboundEvent::Arrival(arrivals[0])),
                recorded_peer(known, InboundEvent::Arrival(arrivals[0])),
                arrivals.drop_first(),
                ingests,
            )
        } else {
            known
        },
        InboundStep::Feed { .. } => if ingests.len() > 0 {
            inbound_peer(
                inbound_next(InboundEvent::Ingest(ingests[0])),
                recorded_peer(known, InboundEvent::Ingest(ingests[0])),
                arrivals,
                ingests.drop_first(),
            )
        } else {
            known
        },
        _ => known,
    }
}

/// The peer that one whole pass returns.
pub open spec fn pass_peer(
    readable: bool,
    arrivals: Seq<Arrival>,
    ingests: Seq<Ingest>,
) -> Option<PeerAddr> {
    inbound_peer(inbound_next(InboundEvent::Woken { readable }), None, arrivals, ingests)
}

/// How many of the steps read from the transport.
pub open spec fn reads(steps: Seq<InboundStep>) -> nat
    decreases steps.len(),
{
    if steps.len() == 0 {
        0
    } else if steps[0] is Read {
        1 + reads(steps.drop_first())
    } else {
        reads(steps.drop_first())
    }
}

/// How many of the steps run the timeout callback.
pub open spec fn timeouts(steps: Seq<InboundStep>) -> nat
    decreases steps.len(),
{
    if steps.len() == 0 {
        0
    } else if steps[0] is Timeout {
        1 + timeouts(steps.drop_first())
    } else {
        timeouts(steps.drop_first())
    }
}

/// After a wait that saw no event the pass runs the timeout callback exactly
/// once and never reads from the transport, whatever is waiting there.
pub proof fn lemma_timeout_pass_never_reads(arrivals: Seq<Arrival>, ingests: Seq<Ingest>)
    ensures
        inbound_pass(false, arrivals, ingests) == seq![InboundStep::Timeout, InboundStep::Finished],
        timeouts(inbound_pass(false, arrivals, ingests)) == 1,
        reads(inbound_pass(false, arrivals, ingests)) == 0,
        pass_peer(false, arrivals, ingests) is None,
{
    let pass = seq![InboundStep::Timeout, InboundStep::Finished];
    assert(inbound_pass(false, arrivals, ingests) =~= pass);
    assert(pass.drop_first() =~= seq![InboundStep::Finished]);
    assert(pass.drop_first().drop_first() =~= Seq::<InboundStep>::empty());
    reveal_with_fuel(timeouts, 3);
    reveal_with_fuel(reads, 3);
}

/// A pass that starts readable never runs the timeout callback.
pub proof fn lemma_readable_pass_never_times_out(arrivals: Seq<Arrival>, ingests: Seq<Ingest>)
    ensures
        timeouts(inbound_pass(true, arrivals, ingests)) == 0,
{
    lemma_no_timeout_from(InboundStep::Read { capacity: RECV_BUFFER_SIZE }, arrivals, ingests);
}

proof fn lemma_no_timeout_from(step: InboundStep, arrivals: Seq<Arrival>, ingests: Seq<Ingest>)
    requires
        !(step is Timeout),
    ensures
        timeouts(inbound_steps(step, arrivals, ingests)) == 0,
    decreases arrivals.len() + ingests.len(),
{
    reveal_with_fuel(timeouts, 3);
    let steps = inbound_steps(step, arrivals, ingests);
    assert(steps.len() > 0 && steps[0] == step);
    match step {
        InboundStep::Read { .. } => {
            if arrivals.len() > 0 {
                let next = inbound_next(InboundEvent::Arrival(arrivals[0]));
                lemma_no_timeout_from(next, arrivals.drop_first(), ingests);
                assert(steps.drop_first() =~= inbound_steps(next, arrivals.drop_first(), ingests));
            } else {
                assert(steps.drop_first() =~= Seq::<InboundStep>::empty());
            }
        },
        InboundStep::Feed { .. } => {
            if ingests.len() > 0 {
                let next = inbound_next(InboundEvent::Ingest(ingests[0]));
                lemma_no_timeout_from(next, arrivals, ingests.drop_first());
                assert(steps.drop_first() =~= inbound_steps(next, arrivals, ingests.drop_first()));
            } else {
                assert(steps.drop_first() =~= Seq::<InboundStep>::empty());
            }
        },
        _ => {
            assert(steps.drop_first() =~= Seq::<InboundStep>::empty());
        },
    }
}

proof fn lemma_reads_until_would_block(arrivals: Seq<Arrival>, ingests: Seq<Ingest>, k: int)
    requires
        0 <= k < arrivals.len(),
        arrivals[k] is WouldBlock,
    ensures
        reads(inbound_steps(InboundStep::Read { capacity: RECV_BUFFER_SIZE }, arrivals, ingests))
            <= k + 1,
        ingests.len() >= k ==> inbound_steps(
            InboundStep::Read { capacity: RECV_BUFFER_SIZE },
            arrivals,
            ingests,
        ).last().is_final(),
    decreases arrivals.len() + ingests.len(),
{
    reveal_with_fuel(reads, 4);
    let read = InboundStep::Read { capacity: RECV_BUFFER_SIZE };
    let steps = inbound_steps(read, arrivals, ingests);
    let after_read = inbound_next(InboundEvent::Arrival(arrivals[0]));
    let tail = inbound_steps(after_read, arrivals.drop_first(), ingests);
    assert(steps =~= seq![read] + tail);
    assert(steps.drop_first() =~= tail);
    assert(steps.last() == tail.last());
    match arrivals[0] {
        Arrival::Datagram { len, .. } => {
            assert(k > 0);
            let feed = InboundStep::Feed { len };
            assert(after_read == feed);
            if ingests.len() > 0 {
                let after_feed = inbound_next(InboundEvent::Ingest(ingests[0]));
                let rest = inbound_steps(after_feed, arrivals.drop_first(), ingests.drop_first());
                assert(tail =~= seq![feed] + rest);
                assert(tail.drop_first() =~= rest);
                assert(tail.last() == rest.last());
                match ingests[0] {
                    Ingest::Consumed { .. } => {
                        assert(arrivals.drop_first()[k - 1] == arrivals[k]);
                        lemma_reads_until_would_block(
                            arrivals.drop_first(),
                            ingests.drop_first(),
                            k - 1,
                        );
                    },
                    _ => {
                        assert(rest =~= seq![InboundStep::Finished]);
                        assert(rest.drop_first() =~= Seq::<InboundStep>::empty());
                    },
                }
            } else {
                assert(tail =~= seq![feed]);
                assert(tail.drop_first() =~= Seq::<InboundStep>::empty());
            }
        },
        Arrival::WouldBlock => {
            assert(tail =~= seq![InboundStep::Finished]);
            assert(tail.drop_first() =~= Seq::<InboundStep>::empty());
        },
        Arrival::Failed => {
            assert(tail =~= seq![InboundStep::Abort]);
            assert(tail.drop_first() =~= Seq::<InboundStep>::empty());
        },
    }
}

/// The pass stops reading at the first would-block: when the transport's
/// answer number `k` (counted from zero) is a would-block, the pass reads at
/// most `k + 1` times, and it comes to an end as soon as the connection has
/// answered the datagrams before it.
pub proof fn lemma_would_block_ends_pass(
    readable: bool,
    arrivals: Seq<Arrival>,
    ingests: Seq<Ingest>,
    k: int,
)
    requires
        0 <= k < arrivals.len(),
        arrivals[k] is WouldBlock,
    ensures
        reads(inbound_pass(readable, arrivals, ingests)) <= k + 1,
        ingests.len() >= k ==> inbound_pass(readable, arrivals, ingests).last().is_final(),
{
    if readable {
        lemma_reads_until_would_block(arrivals, ingests, k);
    } else {
        lemma_timeout_pass_never_reads(arrivals, ingests);
    }
}

/// A peer on record stays on record: datagrams from other sources that
/// arrive later in the pass do not replace it.
pub proof fn lemma_recorded_peer_is_stable(
    step: InboundStep,
    peer: PeerAddr,
    arrivals: Seq<Arrival>,
    ingests: Seq<Ingest>,
)
    ensures
        inbound_peer(step, Some(peer), arrivals, ingests) == Some(peer),
    decreases arrivals.len() + ingests.len(),
{
    match step {
        InboundStep::Read { .. } => {
            if arrivals.len() > 0 {
                lemma_recorded_peer_is_stable(
                    inbound_next(InboundEvent::Arrival(arrivals[0])),
                    peer,
                    arrivals.drop_first(),
                    ingests,
                );
            }
        },
        InboundStep::Feed { .. } => {
            if ingests.len() > 0 {
                lemma_recorded_peer_is_stable(
                    inbound_next(InboundEvent::Ingest(ingests[0])),
                    peer,
                    arrivals,
                    ingests.drop_first(),
                );
            }
        },
        _ => {},
    }
}

/// A pass returns the source of the first datagram it reads, and no peer
/// when it reads none.
pub proof fn lemma_pass_returns_first_source(
    readable: bool,
    arrivals: Seq<Arrival>,
    ingests: Seq<Ingest>,
)
    ensures
        readable && arrivals.len() > 0 && arrivals[0].source() is Some ==> pass_peer(
            readable,
            arrivals,
            ingests,
        ) == arrivals[0].source(),
        !readable || arrivals.len() == 0 || !(arrivals[0] is Datagram) ==> pass_peer(
            readable,
            arrivals,
            ingests,
        ) is None,
{
    reveal_with_fuel(inbound_peer, 3);
    if readable && arrivals.len() > 0 {
        match arrivals[0].source() {
            Some(peer) => {
                lemma_recorded_peer_is_stable(
                    inbound_next(InboundEvent::Arrival(arrivals[0])),
                    peer,
                    arrivals.drop_first(),
                    ingests,
                );
            },
            None => {},
        }
    }
}

} // verus!
