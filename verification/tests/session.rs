use std::collections::VecDeque;

use quicson::driver::{Command, Outcome, Phase, Role, Session};
use quicson::inbound::{Arrival, InboundEvent, InboundStep, Ingest};
use quicson::outbound::{Delivery, Egress, OutboundEvent, OutboundStep, MAX_DATAGRAM_SIZE};
use quicson::peer::PeerAddr;
use quicson::streams::{StreamItem, StreamRead, StreamReader, StreamStep};
use quicson::{read_streams, recv, recv_from, send, send_to};

const INITIAL: u8 = b'I';
const HANDSHAKE: u8 = b'H';
const ACK: u8 = b'A';
const STREAM: u8 = b'S';
const CLOSE: u8 = b'C';

/// A stand-in for the protocol engine: a two-message handshake, stream data
/// in single datagrams, and a first flight that is sent again on timeout.
struct Engine {
    established: bool,
    outbox: VecDeque<Vec<u8>>,
    flight: Option<Vec<u8>>,
    streams: VecDeque<(u64, Vec<u8>, bool)>,
    closed: Option<(bool, u64, Vec<u8>)>,
    timeouts: usize,
}

impl Engine {
    fn connect() -> Engine {
        let mut engine = Engine::accept();
        engine.outbox.push_back(vec![INITIAL]);
        engine.flight = Some(vec![INITIAL]);
        engine
    }

    fn accept() -> Engine {
        Engine {
            established: false,
            outbox: VecDeque::new(),
            flight: None,
            streams: VecDeque::new(),
            closed: None,
            timeouts: 0,
        }
    }

    fn send(&mut self, out: &mut [u8]) -> Egress {
        match self.outbox.pop_front() {
            Some(datagram) => {
                out[..datagram.len()].copy_from_slice(&datagram);
                Egress::Datagram { len: datagram.len() }
            }
            None => Egress::Done,
        }
    }

    fn recv(&mut self, datagram: &[u8]) -> Ingest {
        match datagram.first() {
            Some(&INITIAL) => {
                self.established = true;
                self.outbox.push_back(vec![HANDSHAKE]);
            }
            Some(&HANDSHAKE) => {
                self.established = true;
                self.flight = None;
                self.outbox.push_back(vec![ACK]);
            }
            Some(&ACK) | Some(&CLOSE) => {}
            Some(&STREAM) => {
                let id = datagram[1] as u64;
                let fin = datagram[2] == 1;
                self.streams.push_back((id, datagram[3..].to_vec(), fin));
                self.outbox.push_back(vec![ACK]);
            }
            _ => return Ingest::Failed,
        }
        Ingest::Consumed { len: datagram.len() }
    }

    fn on_timeout(&mut self) {
        self.timeouts += 1;
        if let Some(flight) = &self.flight {
            self.outbox.push_back(flight.clone());
        }
    }

    fn has_deadline(&self) -> bool {
        self.flight.is_some()
    }

    fn stream_send(&mut self, id: u64, data: &[u8], fin: bool) -> bool {
        let mut datagram = vec![STREAM, id as u8, fin as u8];
        datagram.extend_from_slice(data);
        self.outbox.push_back(datagram);
        true
    }

    fn readable(&self) -> Vec<u64> {
        let mut ids = Vec::new();
        for (id, _, _) in &self.streams {
            if !ids.contains(id) {
                ids.push(*id);
            }
        }
        ids
    }

    fn stream_recv(&mut self, id: u64) -> StreamRead {
        match self.streams.iter().position(|(stream, _, _)| *stream == id) {
            Some(at) => {
                let (_, bytes, fin) = self.streams.remove(at).unwrap();
                StreamRead::Data { bytes, fin }
            }
            None => StreamRead::Exhausted,
        }
    }

    fn close(&mut self, app: bool, code: u64, reason: &[u8]) -> bool {
        if self.closed.is_some() {
            return false;
        }
        self.closed = Some((app, code, reason.to_vec()));
        self.outbox.push_back(vec![CLOSE]);
        true
    }
}

/// One direction of the network: datagrams with their source, and a number
/// of datagrams that are lost before the first one gets through.
struct Link {
    queue: VecDeque<(PeerAddr, Vec<u8>)>,
    losses: usize,
}

impl Link {
    fn new(losses: usize) -> Link {
        Link { queue: VecDeque::new(), losses }
    }

    fn carry(&mut self, from: PeerAddr, datagram: Vec<u8>) {
        if self.losses > 0 {
            self.losses -= 1;
        } else {
            self.queue.push_back((from, datagram));
        }
    }
}

struct Endpoint {
    session: Session,
    engine: Engine,
    address: PeerAddr,
    delivered: Vec<StreamItem>,
    written: Vec<(usize, Option<PeerAddr>)>,
    commands: Vec<Command>,
}

impl Endpoint {
    fn new(role: Role, address: PeerAddr) -> Endpoint {
        let engine = match role {
            Role::Client => Engine::connect(),
            Role::Server => Engine::accept(),
        };
        Endpoint {
            session: Session::new(role),
            engine,
            address,
            delivered: Vec::new(),
            written: Vec::new(),
            commands: Vec::new(),
        }
    }

    fn pump_out(&mut self, to: Option<PeerAddr>, link: &mut Link) {
        let mut out = [0u8; MAX_DATAGRAM_SIZE];
        let mut event = OutboundEvent::Begin;
        loop {
            let step = match &to {
                Some(peer) => send_to(event, peer),
                None => send(event),
            };
            event = match step {
                OutboundStep::Generate { capacity } => {
                    OutboundEvent::Egress(self.engine.send(&mut out[..capacity]))
                }
                OutboundStep::Transmit { len, to } => {
                    self.written.push((len, to));
                    link.carry(self.address, out[..len].to_vec());
                    OutboundEvent::Delivery(Delivery::Sent)
                }
                OutboundStep::Close { cause } => {
                    let request = cause.request();
                    self.engine.close(request.app, request.code, &request.reason);
                    OutboundEvent::Closed
                }
                OutboundStep::Finished => return,
                OutboundStep::Abort => panic!("the transport failed"),
            };
        }
    }

    fn pump_in(&mut self, readable: bool, link: &mut Link) -> Option<PeerAddr> {
        let unconnected = self.session.role == Role::Server;
        let mut buffer = Vec::new();
        let mut peer = None;
        let mut event = InboundEvent::Woken { readable };
        loop {
            let step = if unconnected {
                let next = recv_from(event, peer);
                peer = next.1;
                next.0
            } else {
                recv(event)
            };
            event = match step {
                InboundStep::Timeout => {
                    self.engine.on_timeout();
                    InboundEvent::TimeoutHandled
                }
                InboundStep::Read { capacity } => match link.queue.pop_front() {
                    Some((from, datagram)) => {
                        assert!(datagram.len() <= capacity);
                        let len = datagram.len();
                        buffer = datagram;
                        let from = if unconnected { Some(from) } else { None };
                        InboundEvent::Arrival(Arrival::Datagram { len, from })
                    }
                    None => InboundEvent::Arrival(Arrival::WouldBlock),
                },
                InboundStep::Feed { len } => InboundEvent::Ingest(self.engine.recv(&buffer[..len])),
                InboundStep::Finished => return peer,
                InboundStep::Abort => panic!("the transport failed"),
            };
        }
    }

    fn drain(&mut self) {
        let mut reader = StreamReader::new(self.engine.readable());
        while let StreamStep::Receive { stream_id, .. } = reader.step() {
            let read = self.engine.stream_recv(stream_id);
            if let Some(item) = read_streams(&mut reader, read).unwrap() {
                self.delivered.push(item);
            }
        }
    }

    /// Carries out commands until the session waits on an empty link, or is
    /// over. Returns whether anything was done.
    fn work(&mut self, incoming: &mut Link, outgoing: &mut Link) -> bool {
        let mut worked = false;
        loop {
            let command = self.session.command();
            let outcome = match command {
                Command::PumpOut { to } => {
                    self.pump_out(to, outgoing);
                    Outcome::PumpedOut
                }
                Command::Wait => {
                    if incoming.queue.is_empty() {
                        return worked;
                    }
                    Outcome::Woken { readable: true }
                }
                Command::PumpIn { readable } => {
                    Outcome::PumpedIn { peer: self.pump_in(readable, incoming) }
                }
                Command::CheckEstablished => {
                    Outcome::Establishment { established: self.engine.established }
                }
                Command::SendPayload { stream_id, from, fin } => {
                    if self.engine.stream_send(stream_id, &from.payload(), fin) {
                        Outcome::PayloadSent
                    } else {
                        Outcome::PayloadRefused
                    }
                }
                Command::ReadStreams => {
                    self.drain();
                    Outcome::StreamsRead
                }
                Command::Close { cause } => {
                    let request = cause.request();
                    if self.engine.close(request.app, request.code, &request.reason) {
                        Outcome::Closed
                    } else {
                        Outcome::CloseRefused
                    }
                }
                Command::Exit | Command::Abort => return worked,
            };
            self.commands.push(command);
            self.session = self.session.advance(outcome);
            worked = true;
        }
    }

    /// The wait ends with no event: the deadline has passed.
    fn time_out(&mut self) {
        assert_eq!(self.session.command(), Command::Wait);
        self.commands.push(Command::Wait);
        self.session = self.session.advance(Outcome::Woken { readable: false });
    }
}

fn client_address() -> PeerAddr {
    PeerAddr::V4 { octets: [127, 0, 0, 1], port: 51000 }
}

fn server_address() -> PeerAddr {
    PeerAddr::V4 { octets: [127, 0, 0, 1], port: 4433 }
}

/// Runs a client and a server against each other until both sessions are
/// over, losing the first `losses` datagrams that the client sends.
fn converse(losses: usize) -> (Endpoint, Endpoint) {
    let mut client = Endpoint::new(Role::Client, client_address());
    let mut server = Endpoint::new(Role::Server, server_address());
    let mut to_server = Link::new(losses);
    let mut to_client = Link::new(0);
    for _ in 0..1000 {
        let client_worked = client.work(&mut to_client, &mut to_server);
        let server_worked = server.work(&mut to_server, &mut to_client);
        let over = |endpoint: &Endpoint| {
            matches!(endpoint.session.command(), Command::Exit | Command::Abort)
        };
        if over(&client) && over(&server) {
            return (client, server);
        }
        if !client_worked && !server_worked {
            let mut fired = false;
            for endpoint in [&mut client, &mut server] {
                if !over(endpoint) && endpoint.engine.has_deadline() {
                    endpoint.time_out();
                    fired = true;
                }
            }
            assert!(fired, "both sides wait and no deadline is set");
        }
    }
    panic!("the sessions did not end");
}

#[test]
fn client_and_server_exchange_greetings_and_close() {
    let (client, server) = converse(0);
    assert_eq!(client.session.command(), Command::Exit);
    assert_eq!(server.session.command(), Command::Exit);
    assert_eq!(client.session.phase, Phase::Closed);
    assert_eq!(server.session.phase, Phase::Closed);
    assert_eq!(
        server.delivered,
        vec![StreamItem { stream_id: 4, text: "Hello from client".to_string(), fin: true }]
    );
    assert_eq!(
        client.delivered,
        vec![StreamItem { stream_id: 4, text: "Hello from server".to_string(), fin: true }]
    );
    let goodbye = Some((true, 0u64, b"kthxbye".to_vec()));
    assert_eq!(client.engine.closed, goodbye);
    assert_eq!(server.engine.closed, goodbye);
    assert_eq!(client.engine.timeouts, 0);
}

#[test]
fn the_server_answers_the_address_it_first_heard_from() {
    let (client, server) = converse(0);
    assert!(!server.written.is_empty());
    assert!(server.written.iter().all(|(_, to)| *to == Some(client_address())));
    assert!(client.written.iter().all(|(_, to)| to.is_none()));
    assert_eq!(server.session.peer, Some(client_address()));
}

#[test]
fn no_datagram_on_the_wire_exceeds_the_limit() {
    let (client, server) = converse(2);
    for (len, _) in client.written.iter().chain(server.written.iter()) {
        assert!(*len <= MAX_DATAGRAM_SIZE);
    }
}

#[test]
fn the_session_is_established_despite_lost_datagrams() {
    for losses in 0..8 {
        let (client, server) = converse(losses);
        assert_eq!(client.engine.timeouts, losses);
        assert_eq!(client.session.command(), Command::Exit);
        assert_eq!(server.session.command(), Command::Exit);
        assert_eq!(
            client.commands.iter().filter(|c| **c == Command::PumpIn { readable: false }).count(),
            losses
        );
        assert_eq!(server.delivered.len(), 1);
        assert_eq!(client.delivered.len(), 1);
    }
}

#[test]
fn every_change_of_the_connection_is_flushed_before_the_next_wait() {
    let (client, server) = converse(3);
    for endpoint in [&client, &server] {
        let mut unflushed = false;
        for command in &endpoint.commands {
            match command {
                Command::PumpIn { .. } | Command::SendPayload { .. } | Command::Close { .. } => {
                    unflushed = true
                }
                Command::PumpOut { .. } => unflushed = false,
                Command::Wait => assert!(!unflushed),
                _ => {}
            }
        }
        assert!(!unflushed);
    }
}
