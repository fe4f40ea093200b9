//! The session driver: the order in which one session waits, pumps, checks
//! for establishment, exchanges its greeting and closes.
//!
//! A [`Session`] holds where the session stands. [`Session::command`] names
//! what the caller has to do now; the caller does it and reports the outcome
//! to [`Session::advance`]. The initiator and the responder run the same
//! phases; they differ in who speaks first and in where datagrams go.

use vstd::prelude::*;
use vstd::slice::slice_to_vec;
use vstd::string::StringSliceAdditionalSpecFns;
use crate::close::CloseCause;
use crate::peer::PeerAddr;

verus! {

/// The one stream that carries the greeting and its reply.
pub const STREAM_ID: u64 = 4;

/// The part an endpoint plays in the session.
#[derive(Clone, Copy, Debug, PartialEq, Eq)]
pub enum Role {
    /// The initiator: connects to a fixed peer and speaks first.
    Client,
    /// The responder: learns its peer from the first datagram and replies.
    Server,
}

/// The phases of a session, in the order in which they are passed.
#[derive(Clone, Copy, Debug, PartialEq, Eq)]
pub enum Phase {
    AwaitingEstablishment,
    Established,
    Exchanging,
    Closed,
}

/// Where a session stands within its phase: the thing it is doing now.
#[derive(Clone, Copy, Debug, PartialEq, Eq)]
pub enum Stage {
    /// Emitting the first handshake datagrams.
    Opening,
    /// Waiting for the socket to become readable, or for the deadline.
    Waiting,
    /// Running the inbound pump on what the wait saw.
    Receiving { readable: bool },
    /// Running the outbound pump.
    Flushing,
    /// Asking the connection whether the handshake is complete.
    Checking,
    /// Writing the greeting to the stream.
    Sending,
    /// Draining the readable streams.
    Reading,
    /// Closing the connection.
    Closing,
    /// Over, in good order.
    Done,
    /// Over, on a failure.
    Aborted,
}

/// What the driver asks of its caller.
#[derive(Clone, Copy, Debug, PartialEq, Eq)]
pub enum Command {
    /// Run one pass of the outbound pump: to `to` when it is given, else on
    /// the connected socket.
    PumpOut { to: Option<PeerAddr> },
    /// Ask the connection for its current timeout and wait that long, at
    /// most, for the socket to become readable.
    Wait,
    /// Run one pass of the inbound pump, started with what the wait saw.
    PumpIn { readable: bool },
    /// Ask the connection whether it is established.
    CheckEstablished,
    /// Write the greeting of `from` to stream `stream_id`, with the fin flag
    /// as given.
    SendPayload { stream_id: u64, from: Role, fin: bool },
    /// Drain the readable streams and deliver what they hold.
    ReadStreams,
    /// Close the connection for this cause.
    Close { cause: CloseCause },
    /// Leave: the session is over.
    Exit,
    /// Give up: the session has failed.
    Abort,
}

/// What the caller reports to the driver.
#[derive(Clone, Copy, Debug, PartialEq, Eq)]
pub enum Outcome {
    /// A pass of the outbound pump has finished.
    PumpedOut,
    /// The wait has returned; `readable` is false when it saw no event.
    Woken { readable: bool },
    /// The wait itself failed.
    WaitFailed,
    /// A pass of the inbound pump has finished; `peer` is the source it
    /// recorded, if it recorded one.
    PumpedIn { peer: Option<PeerAddr> },
    /// The connection said whether it is established.
    Establishment { established: bool },
    /// The stream took the greeting.
    PayloadSent,
    /// The stream refused the greeting.
    PayloadRefused,
    /// The streams have been drained.
    StreamsRead,
    /// The connection took the close.
    Closed,
    /// The connection refused the close.
    CloseRefused,
}

/// One session: its role, where it stands, and the peer it talks to as far
/// as it had to be learned.
#[derive(Clone, Copy, Debug, PartialEq, Eq)]
pub struct Session {
    pub role: Role,
    pub phase: Phase,
    pub stage: Stage,
    pub peer: Option<PeerAddr>,
}

impl Role {
    /// The greeting that this role sends.
    pub open spec fn greeting(self) -> Seq<u8> {
        match self {
            Role::Client => "Hello from client".spec_bytes(),
            Role::Server => "Hello from server".spec_bytes(),
        }
    }

    /// The bytes of the greeting that this role sends.
    pub fn payload(self) -> (bytes: Vec<u8>)
        ensures
            bytes@ == self.greeting(),
    {
        match self {
            Role::Client => slice_to_vec("Hello from client".as_bytes()),
            Role::Server => slice_to_vec("Hello from server".as_bytes()),
        }
    }
}

/// The session of `role` before anything has happened. The initiator opens
/// by emitting its first handshake datagrams; the responder has no one to
/// send to yet and opens by waiting.
pub open spec fn session_start(role: Role) -> Session {
    Session {
        role,
        phase: Phase::AwaitingEstablishment,
        stage: match role {
            Role::Client => Stage::Opening,
            Role::Server => Stage::Waiting,
        },
        peer: None,
    }
}

/// Where the outbound pump of `session` sends: the initiator's socket is
/// connected, the responder addresses the peer on record.
pub open spec fn session_destination(session: Session) -> Option<PeerAddr> {
    match session.role {
        Role::Client => None,
        Role::Server => session.peer,
    }
}

/// What `session` asks for now. A responder that has to send before it has
/// learned its peer gives up.
pub open spec fn session_command(session: Session) -> Command {
    match session.stage {
        Stage::Opening | Stage::Flushing => if session.role is Server && session.peer is None {
            Command::Abort
        } else {
            Command::PumpOut { to: session_destination(session) }
        },
        Stage::Waiting => Command::Wait,
        Stage::Receiving { readable } => Command::PumpIn { readable },
        Stage::Checking => Command::CheckEstablished,
        Stage::Sending => Command::SendPayload {
            stream_id: STREAM_ID,
            from: session.role,
            fin: true,
        },
        Stage::Reading => Command::ReadStreams,
        Stage::Closing => Command::Close { cause: CloseCause::SessionEnd },
        Stage::Done => Command::Exit,
        Stage::Aborted => Command::Abort,
    }
}

/// The peer on record once an inbound pass has reported `seen`: the first
/// source a responder sees stays for the whole session; an initiator's peer
/// is fixed by its socket and nothing is recorded.
pub open spec fn session_peer(session: Session, seen: Option<PeerAddr>) -> Option<PeerAddr> {
    if session.peer is Some {
        session.peer
    } else if session.role is Server {
        seen
    } else {
        None
    }
}

/// `session` moved to `phase` and `stage`.
pub open spec fn session_at(session: Session, phase: Phase, stage: Stage) -> Session {
    Session { role: session.role, phase, stage, peer: session.peer }
}

/// `session` given up.
pub open spec fn session_aborted(session: Session) -> Session {
    session_at(session, session.phase, Stage::Aborted)
}

/// The session after a pass of the outbound pump. The opening pass leads to
/// the first wait; a later pass ends the round, or the phase.
pub open spec fn session_after_pump_out(session: Session) -> Session {
    if session.stage is Opening {
        session_at(session, session.phase, Stage::Waiting)
    } else {
        match session.phase {
            Phase::AwaitingEstablishment => session_at(
                session,
                Phase::AwaitingEstablishment,
                Stage::Checking,
            ),
            Phase::Established => session_at(session, Phase::Exchanging, Stage::Waiting),
            Phase::Exchanging => session_at(session, Phase::Closed, Stage::Closing),
            Phase::Closed => session_at(session, Phase::Closed, Stage::Done),
        }
    }
}

/// The session after a pass of the inbound pump that recorded `seen`. A
/// responder that still knows no peer cannot answer anyone and gives up.
pub open spec fn session_after_pump_in(session: Session, seen: Option<PeerAddr>) -> Session {
    let known = session_peer(session, seen);
    let informed = Session { peer: known, ..session };
    if session.role is Server && known is None {
        session_aborted(session)
    } else {
        match session.phase {
            Phase::AwaitingEstablishment => session_at(
                informed,
                Phase::AwaitingEstablishment,
                Stage::Flushing,
            ),
            Phase::Established => session_at(informed, Phase::Exchanging, Stage::Reading),
            Phase::Exchanging => session_at(informed, Phase::Exchanging, Stage::Reading),
            Phase::Closed => session_aborted(session),
        }
    }
}

/// The session after the connection has said whether it is established: if
/// not, another round; if so, the initiator goes on to send its greeting and
/// the responder to wait for it. The question belongs to the first phase
/// alone: asked in a later one, its answer ends the session.
pub open spec fn session_after_check(session: Session, established: bool) -> Session {
    if !(session.phase is AwaitingEstablishment) {
        session_aborted(session)
    } else if !established {
        session_at(session, Phase::AwaitingEstablishment, Stage::Waiting)
    } else {
        match session.role {
            Role::Client => session_at(session, Phase::Established, Stage::Sending),
            Role::Server => session_at(session, Phase::Established, Stage::Waiting),
        }
    }
}

/// The session that follows when `outcome` answers the command of
/// `session`.
///
/// Awaiting establishment, the session waits, pumps in, pumps out and asks,
/// round after round, until the connection is established. The initiator
/// then sends its greeting and flushes it, waits for the reply, reads it and
/// flushes again. The responder waits for the greeting, reads it, sends its
/// own and flushes. Both then close and flush the close. Any failure, and
/// any outcome that answers another command than the one asked, ends the
/// session at once: no phase is entered twice. A session that is over stays
/// as it is.
pub open spec fn session_next(session: Session, outcome: Outcome) -> Session {
    match (session_command(session), outcome) {
        (Command::Exit, _) => session,
        (Command::PumpOut { .. }, Outcome::PumpedOut) => session_after_pump_out(session),
        (Command::Wait, Outcome::Woken { readable }) => session_at(
            session,
            session.phase,
            Stage::Receiving { readable },
        ),
        (Command::PumpIn { .. }, Outcome::PumpedIn { peer }) => session_after_pump_in(
            session,
            peer,
        ),
        (Command::CheckEstablished, Outcome::Establishment { established }) => session_after_check(
            session,
            established,
        ),
        (Command::SendPayload { .. }, Outcome::PayloadSent) => session_at(
            session,
            session.phase,
            Stage::Flushing,
        ),
        (Command::ReadStreams, Outcome::StreamsRead) => match session.role {
            Role::Client => session_at(session, session.phase, Stage::Flushing),
            Role::Server => session_at(session, session.phase, Stage::Sending),
        },
        (Command::Close { .. }, Outcome::Closed) => session_at(
            session,
            session.phase,
            Stage::Flushing,
        ),
        _ => session_aborted(session),
    }
}

impl Session {
    /// A session of `role` that has not started yet.
    pub fn new(role: Role) -> (session: Session)
        ensures
            session == session_start(role),
    {
        let stage = match role {
            Role::Client => Stage::Opening,
            Role::Server => Stage::Waiting,
        };
        Session { role, phase: Phase::AwaitingEstablishment, stage, peer: None }
    }

    /// What the caller has to do now.
    pub fn command(&self) -> (command: Command)
        ensures
            command == session_command(*self),
    {
        match self.stage {
            Stage::Opening | Stage::Flushing => match self.role {
                Role::Client => Command::PumpOut { to: None },
                Role::Server => match self.peer {
                    Some(peer) => Command::PumpOut { to: Some(peer) },
                    None => Command::Abort,
                },
            },
            Stage::Waiting => Command::Wait,
            Stage::Receiving { readable } => Command::PumpIn { readable },
            Stage::Checking => Command::CheckEstablished,
            Stage::Sending => Command::SendPayload {
                stream_id: STREAM_ID,
                from: self.role,
                fin: true,
            },
            Stage::Reading => Command::ReadStreams,
            Stage::Closing => Command::Close { cause: CloseCause::SessionEnd },
            Stage::Done => Command::Exit,
            Stage::Aborted => Command::Abort,
        }
    }

    fn at(self, phase: Phase, stage: Stage) -> (session: Session)
        ensures
            session == session_at(self, phase, stage),
    {
        Session { role: self.role, phase, stage, peer: self.peer }
    }

    fn aborted(self) -> (session: Session)
        ensures
            session == session_aborted(self),
    {
        self.at(self.phase, Stage::Aborted)
    }

    fn after_pump_in(self, seen: Option<PeerAddr>) -> (session: Session)
        ensures
            session == session_after_pump_in(self, seen),
    {
        let known = match self.peer {
            Some(peer) => Some(peer),
            None => match self.role {
                Role::Server => seen,
                Role::Client => None,
            },
        };
        let lost = match self.role {
            Role::Server => known.is_none(),
            Role::Client => false,
        };
        if lost {
            return self.aborted();
        }
        let informed = Session { role: self.role, phase: self.phase, stage: self.stage, peer: known };
        match self.phase {
            Phase::AwaitingEstablishment => informed.at(
                Phase::AwaitingEstablishment,
                Stage::Flushing,
            ),
            Phase::Established => informed.at(Phase::Exchanging, Stage::Reading),
            Phase::Exchanging => informed.at(Phase::Exchanging, Stage::Reading),
            Phase::Closed => self.aborted(),
        }
    }

    fn after_pump_out(self) -> (session: Session)
        ensures
            session == session_after_pump_out(self),
    {
        match self.stage {
            Stage::Opening => self.at(self.phase, Stage::Waiting),
            _ => match self.phase {
                Phase::AwaitingEstablishment => self.at(
                    Phase::AwaitingEstablishment,
                    Stage::Checking,
                ),
                Phase::Established => self.at(Phase::Exchanging, Stage::Waiting),
                Phase::Exchanging => self.at(Phase::Closed, Stage::Closing),
                Phase::Closed => self.at(Phase::Closed, Stage::Done),
            },
        }
    }

    fn after_check(self, established: bool) -> (session: Session)
        ensures
            session == session_after_check(self, established),
    {
        match self.phase {
            Phase::AwaitingEstablishment => if !established {
                self.at(Phase::AwaitingEstablishment, Stage::Waiting)
            } else {
                match self.role {
                    Role::Client => self.at(Phase::Established, Stage::Sending),
                    Role::Server => self.at(Phase::Established, Stage::Waiting),
                }
            },
            _ => self.aborted(),
        }
    }

    /// The session after `outcome` has answered its command.
    pub fn advance(self, outcome: Outcome) -> (session: Session)
        ensures
            session == session_next(self, outcome),
    {
        match self.command() {
            Command::Exit => self,
            Command::PumpOut { .. } => match outcome {
                Outcome::PumpedOut => self.after_pump_out(),
                _ => self.aborted(),
            },
            Command::Wait => match outcome {
                Outcome::Woken { readable } => self.at(self.phase, Stage::Receiving { readable }),
                _ => self.aborted(),
            },
            Command::PumpIn { .. } => match outcome {
                Outcome::PumpedIn { peer } => self.after_pump_in(peer),
                _ => self.aborted(),
            },
            Command::CheckEstablished => match outcome {
                Outcome::Establishment { established } => self.after_check(established),
                _ => self.aborted(),
            },
            Command::SendPayload { .. } => match outcome {
                Outcome::PayloadSent => self.at(self.phase, Stage::Flushing),
                _ => self.aborted(),
            },
            Command::ReadStreams => match outcome {
                Outcome::StreamsRead => match self.role {
                    Role::Client => self.at(self.phase, Stage::Flushing),
                    Role::Server => self.at(self.phase, Stage::Sending),
                },
                _ => self.aborted(),
            },
            Command::Close { .. } => match outcome {
                Outcome::Closed => self.at(self.phase, Stage::Flushing),
                _ => self.aborted(),
            },
            Command::Abort => self.aborted(),
        }
    }
}

} // verus!
