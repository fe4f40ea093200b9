//! The outbound pump: drains the datagrams a connection wants to send into
//! the transport.
//!
//! The pump never touches the connection or the socket. It names the next
//! step; the caller performs it and reports what happened. One pass starts
//! with [`OutboundEvent::Begin`] and is over at the first step that is
//! [`OutboundStep::Finished`] or [`OutboundStep::Abort`].

use vstd::prelude::*;
use crate::close::CloseCause;
use crate::peer::PeerAddr;

verus! {

/// The largest datagram handed to the transport, chosen to stay below the
/// usual path MTU.
pub const MAX_DATAGRAM_SIZE: usize = 1350;

/// What the connection answered when asked for its next datagram.
#[derive(Clone, Copy, Debug, PartialEq, Eq)]
pub enum Egress {
    /// It wrote a datagram of `len` bytes at the start of the buffer.
    Datagram { len: usize },
    /// It has nothing more to send for now.
    Done,
    /// It failed at the protocol level.
    Failed,
}

/// What the transport answered to a write.
#[derive(Clone, Copy, Debug, PartialEq, Eq)]
pub enum Delivery {
    /// The datagram was taken.
    Sent,
    /// The send buffer is full.
    WouldBlock,
    /// Any other failure.
    Failed,
}

/// What the caller reports to the pump.
#[derive(Clone, Copy, Debug, PartialEq, Eq)]
pub enum OutboundEvent {
    /// A pass starts.
    Begin,
    /// The answer to [`OutboundStep::Generate`].
    Egress(Egress),
    /// The answer to [`OutboundStep::Transmit`].
    Delivery(Delivery),
    /// The close asked for by [`OutboundStep::Close`] was attempted; whether
    /// the connection accepted it does not matter.
    Closed,
}

/// What the pump asks of its caller.
#[derive(Clone, Copy, Debug, PartialEq, Eq)]
pub enum OutboundStep {
    /// Ask the connection for its next datagram, into a buffer of `capacity`
    /// bytes.
    Generate { capacity: usize },
    /// Write the first `len` bytes of that buffer to the transport: to `to`
    /// when it is given, else to the peer the socket is connected to.
    Transmit { len: usize, to: Option<PeerAddr> },
    /// Try to close the connection for this cause.
    Close { cause: CloseCause },
    /// The pass is over.
    Finished,
    /// The transport is broken: the process cannot go on.
    Abort,
}

impl Egress {
    /// True unless the answer reports a datagram longer than the buffer that
    /// the pump offers. A connection never writes past the buffer it is
    /// given.
    pub open spec fn fits(self) -> bool {
        self matches Egress::Datagram { len } ==> len <= MAX_DATAGRAM_SIZE
    }
}

impl OutboundEvent {
    /// True unless the event carries an answer that does not fit.
    pub open spec fn fits(self) -> bool {
        self matches OutboundEvent::Egress(egress) ==> egress.fits()
    }
}

impl OutboundStep {
    /// True for a write of more than `limit` bytes.
    pub open spec fn exceeds(self, limit: int) -> bool {
        self matches OutboundStep::Transmit { len, .. } && len > limit
    }
}

/// The step that follows `event`, for a pump that writes to `to`.
///
/// A datagram is written whole and at once. The pass ends when the
/// connection has nothing more or the transport would block; what was not
/// written stays with the connection, which offers it again on the next
/// pass. A connection that fails is closed, then the pass ends. A transport
/// that fails in any other way ends the process.
pub open spec fn outbound_next(event: OutboundEvent, to: Option<PeerAddr>) -> OutboundStep {
    match event {
        OutboundEvent::Begin => OutboundStep::Generate { capacity: MAX_DATAGRAM_SIZE },
        OutboundEvent::Egress(Egress::Datagram { len }) => OutboundStep::Transmit { len, to },
        OutboundEvent::Egress(Egress::Done) => OutboundStep::Finished,
        OutboundEvent::Egress(Egress::Failed) => OutboundStep::Close {
            cause: CloseCause::ProtocolFailure,
        },
        OutboundEvent::Delivery(Delivery::Sent) => OutboundStep::Generate {
            capacity: MAX_DATAGRAM_SIZE,
        },
        OutboundEvent::Delivery(Delivery::WouldBlock) => OutboundStep::Finished,
        OutboundEvent::Delivery(Delivery::Failed) => OutboundStep::Abort,
        OutboundEvent::Closed => OutboundStep::Finished,
    }
}

fn advance(event: OutboundEvent, to: Option<PeerAddr>) -> (step: OutboundStep)
    ensures
        step == outbound_next(event, to),
{
    match event {
        OutboundEvent::Begin => OutboundStep::Generate { capacity: MAX_DATAGRAM_SIZE },
        OutboundEvent::Egress(egress) => match egress {
            Egress::Datagram { len } => OutboundStep::Transmit { len, to },
            Egress::Done => OutboundStep::Finished,
            Egress::Failed => OutboundStep::Close { cause: CloseCause::ProtocolFailure },
        },
        OutboundEvent::Delivery(delivery) => match delivery {
            Delivery::Sent => OutboundStep::Generate { capacity: MAX_DATAGRAM_SIZE },
            Delivery::WouldBlock => OutboundStep::Finished,
            Delivery::Failed => OutboundStep::Abort,
        },
        OutboundEvent::Closed => OutboundStep::Finished,
    }
}

/// One decision of the outbound pump on a connected socket.
pub fn send(event: OutboundEvent) -> (step: OutboundStep)
    requires
        event.fits(),
    ensures
        step == outbound_next(event, None),
        !step.exceeds(MAX_DATAGRAM_SIZE as int),
{
    advance(event, None)
}

/// One decision of the outbound pump on an unconnected socket: every
/// datagram goes to `peer`.
pub fn send_to(event: OutboundEvent, peer: &PeerAddr) -> (step: OutboundStep)
    requires
        event.fits(),
    ensures
        step == outbound_next(event, Some(*peer)),
        !step.exceeds(MAX_DATAGRAM_SIZE as int),
{
    advance(event, Some(*peer))
}

/// The steps of the rest of a pass that stands at `step`, when the
/// connection will give the answers `egress` and the transport the answers
/// `delivery`, each in the order in which it is asked. The pass stops early,
/// at a step left unanswered, where an answer is missing.
pub open spec fn outbound_steps(
    step: OutboundStep,
    to: Option<PeerAddr>,
    egress: Seq<Egress>,
    delivery: Seq<Delivery>,
) -> Seq<OutboundStep>
    decreases egress.len() + delivery.len(),
{
    match step {
        OutboundStep::Generate { .. } => if egress.len() > 0 {
            seq![step] + outbound_steps(
                outbound_next(OutboundEvent::Egress(egress[0]), to),
                to,
                egress.drop_first(),
                delivery,
            )
        } else {
            seq![step]
        },
        OutboundStep::Transmit { .. } => if delivery.len() > 0 {
            seq![step] + outbound_steps(
                outbound_next(OutboundEvent::Delivery(delivery[0]), to),
                to,
                egress,
                delivery.drop_first(),
            )
        } else {
            seq![step]
        },
        OutboundStep::Close { .. } => seq![step, outbound_next(OutboundEvent::Closed, to)],
        OutboundStep::Finished => seq![step],
        OutboundStep::Abort => seq![step],
    }
}

/// The steps of one whole pass against the scripted answers.
pub open spec fn outbound_pass(
    to: Option<PeerAddr>,
    egress: Seq<Egress>,
    delivery: Seq<Delivery>,
) -> Seq<OutboundStep> {
    outbound_steps(outbound_next(OutboundEvent::Begin, to), to, egress, delivery)
}

/// The lengths of the datagrams that a sequence of steps writes, in order.
pub open spec fn written(steps: Seq<OutboundStep>) -> Seq<usize>
    decreases steps.len(),
{
    if steps.len() == 0 {
        seq![]
    } else {
        match steps[0] {
            OutboundStep::Transmit { len, .. } => seq![len] + written(steps.drop_first()),
            _ => written(steps.drop_first()),
        }
    }
}

/// True when every datagram in the answers fits the pump's buffer.
pub open spec fn egress_fits(egress: Seq<Egress>) -> bool {
    forall|i: int| 0 <= i < egress.len() ==> (#[trigger] egress[i]).fits()
}

proof fn lemma_steps_fit(
    step: OutboundStep,
    to: Option<PeerAddr>,
    egress: Seq<Egress>,
    delivery: Seq<Delivery>,
)
    requires
        egress_fits(egress),
        !step.exceeds(MAX_DATAGRAM_SIZE as int),
    ensures
        forall|i: int|
            0 <= i < outbound_steps(step, to, egress, delivery).len() ==> !(
            #[trigger] outbound_steps(step, to, egress, delivery)[i]).exceeds(
                MAX_DATAGRAM_SIZE as int,
            ),
    decreases egress.len() + delivery.len(),
{
    let limit = MAX_DATAGRAM_SIZE as int;
    let steps = outbound_steps(step, to, egress, delivery);
    match step {
        OutboundStep::Generate { .. } => {
            if egress.len() > 0 {
                let next = outbound_next(OutboundEvent::Egress(egress[0]), to);
                let rest = outbound_steps(next, to, egress.drop_first(), delivery);
                assert(egress[0].fits());
                assert forall|i: int| 0 <= i < egress.drop_first().len() implies (
                #[trigger] egress.drop_first()[i]).fits() by {
                    assert(egress[i + 1].fits());
                }
                lemma_steps_fit(next, to, egress.drop_first(), delivery);
                assert forall|i: int| 0 <= i < steps.len() implies !(#[trigger] steps[i]).exceeds(
                    limit,
                ) by {
                    if i > 0 {
                        assert(steps[i] == rest[i - 1]);
                    }
                }
            }
        },
        OutboundStep::Transmit { .. } => {
            if delivery.len() > 0 {
                let next = outbound_next(OutboundEvent::Delivery(delivery[0]), to);
                let rest = outbound_steps(next, to, egress, delivery.drop_first());
                lemma_steps_fit(next, to, egress, delivery.drop_first());
                assert forall|i: int| 0 <= i < steps.len() implies !(#[trigger] steps[i]).exceeds(
                    limit,
                ) by {
                    if i > 0 {
                        assert(steps[i] == rest[i - 1]);
                    }
                }
            }
        },
        _ => {},
    }
}

/// No pass writes a datagram longer than [`MAX_DATAGRAM_SIZE`], whatever the
/// connection and the transport answer, as long as the connection stays
/// within the buffer it is given.
pub proof fn lemma_pass_respects_datagram_limit(
    to: Option<PeerAddr>,
    egress: Seq<Egress>,
    delivery: Seq<Delivery>,
)
    requires
        egress_fits(egress),
    ensures
        forall|i: int|
            0 <= i < outbound_pass(to, egress, delivery).len() ==> !(
            #[trigger] outbound_pass(to, egress, delivery)[i]).exceeds(MAX_DATAGRAM_SIZE as int),
        forall|k: int|
            0 <= k < written(outbound_pass(to, egress, delivery)).len() ==> (
            #[trigger] written(outbound_pass(to, egress, delivery))[k]) <= MAX_DATAGRAM_SIZE,
{
    let pass = outbound_pass(to, egress, delivery);
    lemma_steps_fit(outbound_next(OutboundEvent::Begin, to), to, egress, delivery);
    lemma_written_bounded(pass, MAX_DATAGRAM_SIZE as int);
}

proof fn lemma_written_bounded(steps: Seq<OutboundStep>, limit: int)
    requires
        forall|i: int| 0 <= i < steps.len() ==> !(#[trigger] steps[i]).exceeds(limit),
    ensures
        forall|k: int| 0 <= k < written(steps).len() ==> (#[trigger] written(steps)[k]) <= limit,
    decreases steps.len(),
{
    if steps.len() > 0 {
        let rest = steps.drop_first();
        assert forall|i: int| 0 <= i < rest.len() implies !(#[trigger] rest[i]).exceeds(limit) by {
            assert(!steps[i + 1].exceeds(limit));
        }
        lemma_written_bounded(rest, limit);
        assert(!steps[0].exceeds(limit));
        assert forall|k: int| 0 <= k < written(steps).len() implies (#[trigger] written(steps)[k])
            <= limit by {
            match steps[0] {
                OutboundStep::Transmit { len, .. } => {
                    if k > 0 {
                        assert(written(steps)[k] == written(rest)[k - 1]);
                    }
                },
                _ => {},
            }
        }
    }
}

/// A pass on a connection that has nothing to send asks the connection once
/// and writes nothing: it is a no-op on the transport, however often it is
/// repeated.
pub proof fn lemma_idle_pass_writes_nothing(
    to: Option<PeerAddr>,
    egress: Seq<Egress>,
    delivery: Seq<Delivery>,
)
    requires
        egress.len() > 0,
        egress[0] is Done,
    ensures
        outbound_pass(to, egress, delivery) == seq![
            OutboundStep::Generate { capacity: MAX_DATAGRAM_SIZE },
            OutboundStep::Finished,
        ],
        written(outbound_pass(to, egress, delivery)) == Seq::<usize>::empty(),
{
    let pass = outbound_pass(to, egress, delivery);
    let expected = seq![
        OutboundStep::Generate { capacity: MAX_DATAGRAM_SIZE },
        OutboundStep::Finished,
    ];
    assert(outbound_steps(OutboundStep::Finished, to, egress.drop_first(), delivery) == seq![
        OutboundStep::Finished,
    ]);
    assert(pass =~= expected);
    reveal_with_fuel(written, 3);
    assert(expected.drop_first() =~= seq![OutboundStep::Finished]);
    assert(expected.drop_first().drop_first() =~= Seq::<OutboundStep>::empty());
    assert(written(expected) =~= Seq::<usize>::empty());
}

proof fn lemma_written_of_first(first: OutboundStep, rest: Seq<OutboundStep>)
    ensures
        written(seq![first] + rest) == match first {
            OutboundStep::Transmit { len, .. } => seq![len] + written(rest),
            _ => written(rest),
        },
{
    assert((seq![first] + rest).drop_first() =~= rest);
}

proof fn lemma_writes_from_generate(
    to: Option<PeerAddr>,
    egress: Seq<Egress>,
    delivery: Seq<Delivery>,
)
    ensures
        ({
            let steps = outbound_steps(
                OutboundStep::Generate { capacity: MAX_DATAGRAM_SIZE },
                to,
                egress,
                delivery,
            );
            &&& written(steps).len() <= egress.len()
            &&& written(steps).len() <= delivery.len() + 1
            &&& forall|k: int|
                0 <= k < written(steps).len() ==> egress[k] == (Egress::Datagram {
                    len: #[trigger] written(steps)[k],
                })
            &&& forall|k: int|
                0 <= k < written(steps).len() - 1 ==> (#[trigger] delivery[k]) is Sent
        }),
    decreases egress.len() + delivery.len(),
{
    let generate = OutboundStep::Generate { capacity: MAX_DATAGRAM_SIZE };
    let steps = outbound_steps(generate, to, egress, delivery);
    reveal_with_fuel(written, 4);
    if egress.len() == 0 {
        assert(steps =~= seq![generate]);
        lemma_written_of_first(generate, Seq::empty());
        assert(seq![generate] + Seq::<OutboundStep>::empty() =~= seq![generate]);
    } else {
        let after = outbound_next(OutboundEvent::Egress(egress[0]), to);
        let tail = outbound_steps(after, to, egress.drop_first(), delivery);
        lemma_written_of_first(generate, tail);
        match egress[0] {
            Egress::Datagram { len } => {
                if delivery.len() == 0 {
                    lemma_written_of_first(after, Seq::empty());
                    assert(seq![after] + Seq::<OutboundStep>::empty() =~= seq![after]);
                } else {
                    let next = outbound_next(OutboundEvent::Delivery(delivery[0]), to);
                    let rest = outbound_steps(next, to, egress.drop_first(), delivery.drop_first());
                    lemma_written_of_first(after, rest);
                    if delivery[0] is Sent {
                        lemma_writes_from_generate(to, egress.drop_first(), delivery.drop_first());
                        assert forall|k: int| 0 <= k < written(steps).len() implies egress[k] == (
                        Egress::Datagram { len: #[trigger] written(steps)[k] }) by {
                            if k > 0 {
                                assert(written(steps)[k] == written(rest)[k - 1]);
                                assert(egress.drop_first()[k - 1] == egress[k]);
                            }
                        }
                        assert forall|k: int| 0 <= k < written(steps).len() - 1 implies (
                        #[trigger] delivery[k]) is Sent by {
                            if k > 0 {
                                assert(delivery.drop_first()[k - 1] == delivery[k]);
                            }
                        }
                    } else {
                        lemma_written_of_first(next, Seq::empty());
                        assert(seq![next] + Seq::<OutboundStep>::empty() =~= seq![next]);
                    }
                }
            },
            Egress::Done => {
                lemma_written_of_first(after, Seq::empty());
                assert(seq![after] + Seq::<OutboundStep>::empty() =~= seq![after]);
            },
            Egress::Failed => {
                assert(tail =~= seq![after] + seq![OutboundStep::Finished]);
                lemma_written_of_first(after, seq![OutboundStep::Finished]);
                lemma_written_of_first(OutboundStep::Finished, Seq::empty());
                assert(seq![OutboundStep::Finished] + Seq::<OutboundStep>::empty() =~= seq![
                    OutboundStep::Finished,
                ]);
            },
        }
    }
}

/// A pass writes the datagrams that the connection produced, in the order
/// in which it produced them and each exactly as long as it was produced:
/// none is skipped, split, merged or written twice. Every write but the
/// last was taken by the transport, so nothing is written after a datagram
/// that the transport did not take.
pub proof fn lemma_writes_follow_generation(
    to: Option<PeerAddr>,
    egress: Seq<Egress>,
    delivery: Seq<Delivery>,
)
    ensures
        written(outbound_pass(to, egress, delivery)).len() <= egress.len(),
        written(outbound_pass(to, egress, delivery)).len() <= delivery.len() + 1,
        forall|k: int|
            0 <= k < written(outbound_pass(to, egress, delivery)).len() ==> egress[k] == (
            Egress::Datagram { len: #[trigger] written(outbound_pass(to, egress, delivery))[k] }),
        forall|k: int|
            0 <= k < written(outbound_pass(to, egress, delivery)).len() - 1 ==> (
            #[trigger] delivery[k]) is Sent,
{
    lemma_writes_from_generate(to, egress, delivery);
}

/// A transport that would block ends the pass: when its answer number `k`
/// (counted from zero) is a would-block, at most `k + 1` datagrams are
/// written.
pub proof fn lemma_would_block_ends_pass(
    to: Option<PeerAddr>,
    egress: Seq<Egress>,
    delivery: Seq<Delivery>,
    k: int,
)
    requires
        0 <= k < delivery.len(),
        delivery[k] is WouldBlock,
    ensures
        written(outbound_pass(to, egress, delivery)).len() <= k + 1,
{
    lemma_writes_from_generate(to, egress, delivery);
    let count = written(outbound_pass(to, egress, delivery)).len();
    if count > k + 1 {
        assert(delivery[k] is Sent);
    }
}

} // verus!
