use quicson::close::CloseCause;
use quicson::outbound::{Delivery, Egress, OutboundEvent, OutboundStep, MAX_DATAGRAM_SIZE};
use quicson::peer::PeerAddr;
use quicson::{send, send_to};

/// Runs one pass against scripted answers and returns every step taken.
fn run_pass(to: Option<PeerAddr>, egress: &[Egress], delivery: &[Delivery]) -> Vec<OutboundStep> {
    let decide = |event: OutboundEvent| match &to {
        Some(peer) => send_to(event, peer),
        None => send(event),
    };
    let mut egress = egress.iter();
    let mut delivery = delivery.iter();
    let mut steps = Vec::new();
    let mut step = decide(OutboundEvent::Begin);
    loop {
        steps.push(step);
        let event = match step {
            OutboundStep::Generate { capacity } => {
                assert_eq!(capacity, MAX_DATAGRAM_SIZE);
                match egress.next() {
                    Some(answer) => OutboundEvent::Egress(*answer),
                    None => break,
                }
            }
            OutboundStep::Transmit { .. } => match delivery.next() {
                Some(answer) => OutboundEvent::Delivery(*answer),
                None => break,
            },
            OutboundStep::Close { .. } => OutboundEvent::Closed,
            OutboundStep::Finished | OutboundStep::Abort => break,
        };
        step = decide(event);
    }
    steps
}

fn written(steps: &[OutboundStep]) -> Vec<usize> {
    steps
        .iter()
        .filter_map(|step| match step {
            OutboundStep::Transmit { len, .. } => Some(*len),
            _ => None,
        })
        .collect()
}

#[test]
fn the_datagram_limit_is_1350_bytes() {
    assert_eq!(MAX_DATAGRAM_SIZE, 1350);
    assert_eq!(
        send(OutboundEvent::Begin),
        OutboundStep::Generate { capacity: 1350 }
    );
}

#[test]
fn a_pass_with_nothing_to_send_writes_nothing() {
    let steps = run_pass(None, &[Egress::Done], &[Delivery::Sent, Delivery::Sent]);
    assert_eq!(
        steps,
        vec![OutboundStep::Generate { capacity: 1350 }, OutboundStep::Finished]
    );
    assert!(written(&steps).is_empty());
    let again = run_pass(None, &[Egress::Done], &[Delivery::Sent, Delivery::Sent]);
    assert_eq!(again, steps);
}

#[test]
fn every_datagram_is_written_whole_until_the_connection_is_done() {
    let egress = [
        Egress::Datagram { len: 1200 },
        Egress::Datagram { len: 1350 },
        Egress::Datagram { len: 1 },
        Egress::Done,
    ];
    let delivery = [Delivery::Sent; 3];
    let steps = run_pass(None, &egress, &delivery);
    assert_eq!(written(&steps), vec![1200, 1350, 1]);
    assert_eq!(steps.last(), Some(&OutboundStep::Finished));
    assert_eq!(steps.len(), 8);
    assert!(written(&steps).iter().all(|len| *len <= MAX_DATAGRAM_SIZE));
}

#[test]
fn a_full_send_buffer_ends_the_pass_without_error() {
    let egress = [Egress::Datagram { len: 900 }, Egress::Datagram { len: 800 }, Egress::Done];
    let delivery = [Delivery::Sent, Delivery::WouldBlock, Delivery::Sent];
    let steps = run_pass(None, &egress, &delivery);
    assert_eq!(
        steps,
        vec![
            OutboundStep::Generate { capacity: 1350 },
            OutboundStep::Transmit { len: 900, to: None },
            OutboundStep::Generate { capacity: 1350 },
            OutboundStep::Transmit { len: 800, to: None },
            OutboundStep::Finished,
        ]
    );
}

#[test]
fn a_failing_connection_is_closed_and_the_pass_ends() {
    let steps = run_pass(None, &[Egress::Datagram { len: 10 }, Egress::Failed], &[Delivery::Sent]);
    assert_eq!(
        steps,
        vec![
            OutboundStep::Generate { capacity: 1350 },
            OutboundStep::Transmit { len: 10, to: None },
            OutboundStep::Generate { capacity: 1350 },
            OutboundStep::Close { cause: CloseCause::ProtocolFailure },
            OutboundStep::Finished,
        ]
    );
}

#[test]
fn a_broken_transport_aborts() {
    let steps = run_pass(None, &[Egress::Datagram { len: 10 }, Egress::Done], &[Delivery::Failed]);
    assert_eq!(steps.last(), Some(&OutboundStep::Abort));
    assert_eq!(steps.len(), 3);
    assert_eq!(send(OutboundEvent::Delivery(Delivery::Failed)), OutboundStep::Abort);
}

#[test]
fn send_to_addresses_every_datagram_to_the_given_peer() {
    let peer = PeerAddr::V4 { octets: [127, 0, 0, 1], port: 50123 };
    let egress = [Egress::Datagram { len: 64 }, Egress::Datagram { len: 128 }, Egress::Done];
    let steps = run_pass(Some(peer), &egress, &[Delivery::Sent, Delivery::Sent]);
    let targets: Vec<Option<PeerAddr>> = steps
        .iter()
        .filter_map(|step| match step {
            OutboundStep::Transmit { to, .. } => Some(*to),
            _ => None,
        })
        .collect();
    assert_eq!(targets, vec![Some(peer), Some(peer)]);
    assert_eq!(written(&steps), vec![64, 128]);
}

#[test]
fn send_leaves_the_destination_to_the_connected_socket() {
    assert_eq!(
        send(OutboundEvent::Egress(Egress::Datagram { len: 5 })),
        OutboundStep::Transmit { len: 5, to: None }
    );
}
