use quicson::inbound::{Arrival, InboundEvent, InboundStep, Ingest, RECV_BUFFER_SIZE};
use quicson::peer::PeerAddr;
use quicson::{recv, recv_from};

/// Runs one pass of the connected pump against scripted answers.
fn run_pass(readable: bool, arrivals: &[Arrival], ingests: &[Ingest]) -> Vec<InboundStep> {
    run_pass_from(readable, arrivals, ingests).0
}

/// Runs one pass of the unconnected pump; also gives the peer it returns.
fn run_pass_from(
    readable: bool,
    arrivals: &[Arrival],
    ingests: &[Ingest],
) -> (Vec<InboundStep>, Option<PeerAddr>) {
    let mut arrivals = arrivals.iter();
    let mut ingests = ingests.iter();
    let mut steps = Vec::new();
    let (mut step, mut peer) = recv_from(InboundEvent::Woken { readable }, None);
    loop {
        steps.push(step);
        let event = match step {
            InboundStep::Timeout => InboundEvent::TimeoutHandled,
            InboundStep::Read { capacity } => {
                assert_eq!(capacity, RECV_BUFFER_SIZE);
                match arrivals.next() {
                    Some(answer) => InboundEvent::Arrival(*answer),
                    None => break,
                }
            }
            InboundStep::Feed { .. } => match ingests.next() {
                Some(answer) => InboundEvent::Ingest(*answer),
                None => break,
            },
            InboundStep::Finished | InboundStep::Abort => break,
        };
        assert_eq!(recv(event), recv_from(event, peer).0);
        let next = recv_from(event, peer);
        step = next.0;
        peer = next.1;
    }
    (steps, peer)
}

fn count_reads(steps: &[InboundStep]) -> usize {
    steps.iter().filter(|step| matches!(step, InboundStep::Read { .. })).count()
}

fn datagram(len: usize) -> Arrival {
    Arrival::Datagram { len, from: None }
}

fn peer_a() -> PeerAddr {
    PeerAddr::V4 { octets: [127, 0, 0, 1], port: 40001 }
}

fn peer_b() -> PeerAddr {
    PeerAddr::V4 { octets: [127, 0, 0, 1], port: 40002 }
}

#[test]
fn the_receive_buffer_is_65535_bytes() {
    assert_eq!(RECV_BUFFER_SIZE, 65535);
    assert_eq!(
        recv(InboundEvent::Woken { readable: true }),
        InboundStep::Read { capacity: 65535 }
    );
}

#[test]
fn an_empty_wait_runs_the_timeout_once_and_reads_nothing() {
    let arrivals = [datagram(100), datagram(200), Arrival::WouldBlock];
    let ingests = [Ingest::Consumed { len: 100 }, Ingest::Consumed { len: 200 }];
    let steps = run_pass(false, &arrivals, &ingests);
    assert_eq!(steps, vec![InboundStep::Timeout, InboundStep::Finished]);
    assert_eq!(count_reads(&steps), 0);
}

#[test]
fn the_pass_stops_at_the_first_would_block() {
    let arrivals = [datagram(1200), datagram(64), Arrival::WouldBlock, datagram(9), datagram(9)];
    let ingests = [Ingest::Consumed { len: 1200 }, Ingest::Consumed { len: 64 }, Ingest::Consumed { len: 9 }];
    let steps = run_pass(true, &arrivals, &ingests);
    assert_eq!(
        steps,
        vec![
            InboundStep::Read { capacity: 65535 },
            InboundStep::Feed { len: 1200 },
            InboundStep::Read { capacity: 65535 },
            InboundStep::Feed { len: 64 },
            InboundStep::Read { capacity: 65535 },
            InboundStep::Finished,
        ]
    );
    assert_eq!(count_reads(&steps), 3);
}

#[test]
fn an_immediate_would_block_reads_once() {
    let steps = run_pass(true, &[Arrival::WouldBlock], &[]);
    assert_eq!(steps, vec![InboundStep::Read { capacity: 65535 }, InboundStep::Finished]);
}

#[test]
fn a_readable_pass_never_runs_the_timeout() {
    let steps = run_pass(true, &[datagram(5), Arrival::WouldBlock], &[Ingest::Consumed { len: 5 }]);
    assert!(!steps.contains(&InboundStep::Timeout));
}

#[test]
fn the_whole_datagram_is_fed_even_when_less_is_consumed() {
    assert_eq!(
        recv(InboundEvent::Arrival(datagram(1350))),
        InboundStep::Feed { len: 1350 }
    );
    assert_eq!(
        recv(InboundEvent::Ingest(Ingest::Consumed { len: 600 })),
        InboundStep::Read { capacity: 65535 }
    );
}

#[test]
fn a_connection_with_nothing_to_process_ends_the_pass() {
    let steps = run_pass(true, &[datagram(30), datagram(30)], &[Ingest::Done]);
    assert_eq!(
        steps,
        vec![
            InboundStep::Read { capacity: 65535 },
            InboundStep::Feed { len: 30 },
            InboundStep::Finished,
        ]
    );
}

#[test]
fn a_rejected_datagram_ends_the_pass_without_abort() {
    let steps = run_pass(true, &[datagram(30), datagram(30)], &[Ingest::Failed]);
    assert_eq!(steps.last(), Some(&InboundStep::Finished));
    assert_eq!(count_reads(&steps), 1);
}

#[test]
fn a_broken_transport_aborts_the_inbound_pass() {
    let steps = run_pass(true, &[Arrival::Failed, datagram(1)], &[]);
    assert_eq!(steps, vec![InboundStep::Read { capacity: 65535 }, InboundStep::Abort]);
}

#[test]
fn recv_from_returns_the_first_source_only() {
    let arrivals = [
        Arrival::Datagram { len: 1200, from: Some(peer_a()) },
        Arrival::Datagram { len: 1200, from: Some(peer_b()) },
        Arrival::WouldBlock,
    ];
    let ingests = [Ingest::Consumed { len: 1200 }, Ingest::Consumed { len: 1200 }];
    let (steps, peer) = run_pass_from(true, &arrivals, &ingests);
    assert_eq!(peer, Some(peer_a()));
    assert_eq!(count_reads(&steps), 3);
    assert_eq!(steps.iter().filter(|s| matches!(s, InboundStep::Feed { .. })).count(), 2);
}

#[test]
fn recv_from_returns_no_peer_when_nothing_arrives() {
    let (_, peer) = run_pass_from(true, &[Arrival::WouldBlock], &[]);
    assert_eq!(peer, None);
    let (_, peer) = run_pass_from(false, &[Arrival::Datagram { len: 1, from: Some(peer_a()) }], &[]);
    assert_eq!(peer, None);
}

#[test]
fn recv_from_keeps_a_known_peer() {
    let event = InboundEvent::Arrival(Arrival::Datagram { len: 10, from: Some(peer_b()) });
    assert_eq!(
        recv_from(event, Some(peer_a())),
        (InboundStep::Feed { len: 10 }, Some(peer_a()))
    );
    assert_eq!(recv_from(event, None), (InboundStep::Feed { len: 10 }, Some(peer_b())));
}
