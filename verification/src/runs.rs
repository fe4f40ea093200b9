//! Whole runs of a session: what holds of every sequence of outcomes, not
//! only of the next one.

use vstd::prelude::*;
use crate::driver::{
    session_command, session_next, session_start, Command, Outcome, Phase, Role, Session, Stage,
};
use crate::peer::PeerAddr;

verus! {

/// The session that results when `outcomes` answer its commands one after
/// another.
pub open spec fn session_after(session: Session, outcomes: Seq<Outcome>) -> Session
    decreases outcomes.len(),
{
    if outcomes.len() == 0 {
        session
    } else {
        session_next(session_after(session, outcomes.drop_last()), outcomes.last())
    }
}

/// Running `first` and then `then` is running the two in a row.
pub proof fn lemma_runs_compose(session: Session, first: Seq<Outcome>, then: Seq<Outcome>)
    ensures
        session_after(session, first + then) == session_after(session_after(session, first), then),
    decreases then.len(),
{
    if then.len() == 0 {
        assert(first + then =~= first);
    } else {
        assert((first + then).drop_last() =~= first + then.drop_last());
        assert((first + then).last() == then.last());
        lemma_runs_compose(session, first, then.drop_last());
    }
}

/// A session never changes its role, and never replaces a peer it has on
/// record, whatever it is told.
pub proof fn lemma_peer_is_pinned(session: Session, outcomes: Seq<Outcome>)
    ensures
        session_after(session, outcomes).role == session.role,
        session.peer is Some ==> session_after(session, outcomes).peer == session.peer,
    decreases outcomes.len(),
{
    if outcomes.len() > 0 {
        lemma_peer_is_pinned(session, outcomes.drop_last());
    }
}

/// A responder that knows no peer yet sends nothing, and the first source
/// that an inbound pass reports to it becomes its peer.
pub proof fn lemma_first_source_is_adopted(session: Session, source: PeerAddr)
    requires
        session.role is Server,
        session.peer is None,
    ensures
        !(session_command(session) is PumpOut),
        session.stage is Receiving && !(session.phase is Closed) ==> session_next(
            session,
            Outcome::PumpedIn { peer: Some(source) },
        ).peer == Some(source),
{
}

/// Once a responder has a peer on record, every later pass of its outbound
/// pump goes to that peer: the address never changes within a session,
/// whichever sources later inbound passes report.
pub proof fn lemma_responder_keeps_its_peer(
    before: Seq<Outcome>,
    after: Seq<Outcome>,
    peer: PeerAddr,
)
    requires
        session_after(session_start(Role::Server), before).peer == Some(peer),
    ensures
        session_command(session_after(session_start(Role::Server), before + after))
            matches Command::PumpOut { to } ==> to == Some(peer),
{
    let start = session_start(Role::Server);
    let known = session_after(start, before);
    lemma_runs_compose(start, before, after);
    lemma_peer_is_pinned(start, before);
    lemma_peer_is_pinned(known, after);
}

/// An initiator always pumps out on its connected socket.
pub proof fn lemma_initiator_uses_connected_socket(outcomes: Seq<Outcome>)
    ensures
        session_command(session_after(session_start(Role::Client), outcomes))
            matches Command::PumpOut { to } ==> to is None,
{
    lemma_peer_is_pinned(session_start(Role::Client), outcomes);
}

/// What one round of waiting brings: what the wait saw, and the source that
/// the inbound pass recorded.
pub struct Round {
    pub readable: bool,
    pub seen: Option<PeerAddr>,
}

/// The outcomes of one round while establishment is awaited: the wait, the
/// inbound pass, the outbound pass and the connection's answer.
pub open spec fn round_outcomes(round: Round, established: bool) -> Seq<Outcome> {
    seq![
        Outcome::Woken { readable: round.readable },
        Outcome::PumpedIn { peer: round.seen },
        Outcome::PumpedOut,
        Outcome::Establishment { established },
    ]
}

/// The outcomes of a series of rounds that all end with the connection not
/// yet established.
pub open spec fn idle_rounds(rounds: Seq<Round>) -> Seq<Outcome>
    decreases rounds.len(),
{
    if rounds.len() == 0 {
        seq![]
    } else {
        idle_rounds(rounds.drop_last()) + round_outcomes(rounds.last(), false)
    }
}

/// True for a session that stands at the wait of a round of the
/// establishment phase and has someone to send to.
pub open spec fn awaits_round(session: Session) -> bool {
    &&& session.phase is AwaitingEstablishment
    &&& session.stage is Waiting
    &&& (session.role is Client || session.peer is Some)
}

proof fn lemma_round(session: Session, round: Round, established: bool)
    requires
        awaits_round(session),
    ensures
        session_after(session, round_outcomes(round, established)) == if established {
            Session {
                phase: Phase::Established,
                stage: match session.role {
                    Role::Client => Stage::Sending,
                    Role::Server => Stage::Waiting,
                },
                ..session
            }
        } else {
            session
        },
{
    let outcomes = round_outcomes(round, established);
    let one = outcomes.drop_last();
    let two = one.drop_last();
    let three = two.drop_last();
    assert(three.drop_last() =~= Seq::<Outcome>::empty());
    assert(one.len() == 3 && two.len() == 2 && three.len() == 1);
    reveal_with_fuel(session_after, 5);
    let s1 = session_next(session, outcomes[0]);
    assert(session_after(session, three) == s1);
    let s2 = session_next(s1, outcomes[1]);
    assert(session_after(session, two) == s2);
    let s3 = session_next(s2, outcomes[2]);
    assert(session_after(session, one) == s3);
}

proof fn lemma_idle_rounds_change_nothing(session: Session, rounds: Seq<Round>)
    requires
        awaits_round(session),
    ensures
        session_after(session, idle_rounds(rounds)) == session,
    decreases rounds.len(),
{
    if rounds.len() > 0 {
        lemma_idle_rounds_change_nothing(session, rounds.drop_last());
        lemma_runs_compose(
            session,
            idle_rounds(rounds.drop_last()),
            round_outcomes(rounds.last(), false),
        );
        lemma_round(session, rounds.last(), false);
    }
}

/// The driver never gives up on establishment: after any number of rounds
/// in which the connection was not yet established, whatever the waits saw,
/// the round in which it is established takes the session to the
/// established phase, with its peer unchanged.
pub proof fn lemma_establishment_survives_idle_rounds(
    session: Session,
    rounds: Seq<Round>,
    last: Round,
)
    requires
        awaits_round(session),
    ensures
        session_after(session, idle_rounds(rounds) + round_outcomes(last, true)) == (Session {
            phase: Phase::Established,
            stage: match session.role {
                Role::Client => Stage::Sending,
                Role::Server => Stage::Waiting,
            },
            ..session
        }),
{
    lemma_idle_rounds_change_nothing(session, rounds);
    lemma_runs_compose(session, idle_rounds(rounds), round_outcomes(last, true));
    lemma_round(session, last, true);
}

/// An initiator reaches the established phase from its very start, however
/// many rounds pass before the connection is established.
pub proof fn lemma_initiator_establishes(rounds: Seq<Round>, last: Round)
    ensures
        session_after(
            session_start(Role::Client),
            seq![Outcome::PumpedOut] + (idle_rounds(rounds) + round_outcomes(last, true)),
        ).phase is Established,
{
    let start = session_start(Role::Client);
    let opened = session_next(start, Outcome::PumpedOut);
    assert(session_after(start, seq![Outcome::PumpedOut]) == opened) by {
        assert(seq![Outcome::PumpedOut].drop_last() =~= Seq::<Outcome>::empty());
        reveal_with_fuel(session_after, 2);
    }
    lemma_runs_compose(
        start,
        seq![Outcome::PumpedOut],
        idle_rounds(rounds) + round_outcomes(last, true),
    );
    lemma_establishment_survives_idle_rounds(opened, rounds, last);
}

/// A responder reaches the established phase from its very start, however
/// many rounds pass before the connection is established, provided its
/// first inbound pass saw a source; that source is then its peer.
pub proof fn lemma_responder_establishes(
    first: Round,
    source: PeerAddr,
    rounds: Seq<Round>,
    last: Round,
)
    requires
        first.seen == Some(source),
    ensures
        session_after(
            session_start(Role::Server),
            round_outcomes(first, false) + (idle_rounds(rounds) + round_outcomes(last, true)),
        ).phase is Established,
        session_after(
            session_start(Role::Server),
            round_outcomes(first, false) + (idle_rounds(rounds) + round_outcomes(last, true)),
        ).peer == Some(source),
{
    let start = session_start(Role::Server);
    let outcomes = round_outcomes(first, false);
    let met = Session { peer: Some(source), ..start };
    assert(session_after(start, outcomes) == met) by {
        let one = outcomes.drop_last();
        let two = one.drop_last();
        let three = two.drop_last();
        assert(three.drop_last() =~= Seq::<Outcome>::empty());
        assert(one.len() == 3 && two.len() == 2 && three.len() == 1);
        reveal_with_fuel(session_after, 5);
        let s1 = session_next(start, outcomes[0]);
        assert(session_after(start, three) == s1);
        let s2 = session_next(s1, outcomes[1]);
        assert(session_after(start, two) == s2);
        let s3 = session_next(s2, outcomes[2]);
        assert(session_after(start, one) == s3);
    }
    lemma_runs_compose(start, outcomes, idle_rounds(rounds) + round_outcomes(last, true));
    lemma_establishment_survives_idle_rounds(met, rounds, last);
}

/// The session as it stands when the first `k` of `outcomes` have been
/// reported.
pub open spec fn session_before(start: Session, outcomes: Seq<Outcome>, k: int) -> Session {
    session_after(start, outcomes.take(k))
}

/// True for a command that changes the connection: an inbound pass, a write
/// to a stream, a close.
pub open spec fn mutates(command: Command) -> bool {
    command is PumpIn || command is SendPayload || command is Close
}

/// True while a session has changed its connection, or is about to, and has
/// not pumped out since.
pub open spec fn owes_flush(session: Session) -> bool {
    ||| session.stage is Receiving
    ||| session.stage is Reading
    ||| session.stage is Sending
    ||| session.stage is Closing
}

proof fn lemma_step_of_run(start: Session, outcomes: Seq<Outcome>, k: int)
    requires
        0 <= k < outcomes.len(),
    ensures
        session_before(start, outcomes, k + 1) == session_next(
            session_before(start, outcomes, k),
            outcomes[k],
        ),
{
    assert(outcomes.take(k + 1).drop_last() =~= outcomes.take(k));
    assert(outcomes.take(k + 1).last() == outcomes[k]);
}

proof fn lemma_failure_is_final(start: Session, outcomes: Seq<Outcome>, i: int, j: int)
    requires
        0 <= i <= j <= outcomes.len(),
        session_command(session_before(start, outcomes, i)) is Abort,
    ensures
        session_command(session_before(start, outcomes, j)) is Abort,
    decreases j - i,
{
    if i < j {
        lemma_failure_is_final(start, outcomes, i, j - 1);
        lemma_step_of_run(start, outcomes, j - 1);
    }
}

/// A session that is over stays over: once it says to leave it says so for
/// ever, and once it has given up it never resumes.
pub proof fn lemma_end_is_final(session: Session, outcomes: Seq<Outcome>)
    ensures
        session_command(session) is Exit ==> session_after(session, outcomes) == session,
        session_command(session) is Abort ==> session_command(session_after(session, outcomes))
            is Abort,
    decreases outcomes.len(),
{
    if outcomes.len() > 0 {
        lemma_end_is_final(session, outcomes.drop_last());
    }
}

/// The place of a phase in the order of the phases.
pub open spec fn phase_rank(phase: Phase) -> nat {
    match phase {
        Phase::AwaitingEstablishment => 0,
        Phase::Established => 1,
        Phase::Exchanging => 2,
        Phase::Closed => 3,
    }
}

/// A session never returns to a phase it has left: whatever it is told, its
/// phase stays or moves on in the order of the phases.
pub proof fn lemma_phases_never_go_back(session: Session, outcomes: Seq<Outcome>)
    ensures
        phase_rank(session.phase) <= phase_rank(session_after(session, outcomes).phase),
    decreases outcomes.len(),
{
    if outcomes.len() > 0 {
        lemma_phases_never_go_back(session, outcomes.drop_last());
    }
}

proof fn lemma_debt_is_paid(start: Session, outcomes: Seq<Outcome>, i: int, j: int)
    requires
        0 <= i < j <= outcomes.len(),
        owes_flush(session_before(start, outcomes, i)),
        session_command(session_before(start, outcomes, j)) is Wait || session_command(
            session_before(start, outcomes, j),
        ) is Exit,
    ensures
        exists|k: int|
            i < k < j && #[trigger] session_command(session_before(start, outcomes, k)) is PumpOut,
    decreases j - i,
{
    let next = session_before(start, outcomes, i + 1);
    lemma_step_of_run(start, outcomes, i);
    if session_command(next) is PumpOut {
        assert(i < i + 1 < j);
    } else if session_command(next) is Abort {
        lemma_failure_is_final(start, outcomes, i + 1, j);
    } else {
        assert(owes_flush(next));
        lemma_debt_is_paid(start, outcomes, i + 1, j);
        let k = choose|k: int|
            i + 1 < k < j && #[trigger] session_command(session_before(start, outcomes, k))
                is PumpOut;
        assert(i < k < j);
    }
}

/// Whatever changes the connection is flushed before the session waits
/// again or leaves: between a command that changes the connection and a
/// later wait or exit, the session always asks for a pass of the outbound
/// pump. This holds from any session and for any outcomes.
pub proof fn lemma_mutation_is_flushed_before_wait(
    start: Session,
    outcomes: Seq<Outcome>,
    i: int,
    j: int,
)
    requires
        0 <= i < j <= outcomes.len(),
        mutates(session_command(session_before(start, outcomes, i))),
        session_command(session_before(start, outcomes, j)) is Wait || session_command(
            session_before(start, outcomes, j),
        ) is Exit,
    ensures
        exists|k: int|
            i < k < j && #[trigger] session_command(session_before(start, outcomes, k)) is PumpOut,
{
    lemma_debt_is_paid(start, outcomes, i, j);
}

} // verus!
