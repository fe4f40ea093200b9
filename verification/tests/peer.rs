use quicson::peer::PeerAddr;

#[test]
fn a_version_four_peer_is_reached_from_the_version_four_wildcard() {
    let peer = PeerAddr::V4 { octets: [127, 0, 0, 1], port: 4433 };
    assert_eq!(peer.bind_wildcard(), PeerAddr::V4 { octets: [0, 0, 0, 0], port: 0 });
}

#[test]
fn a_version_six_peer_is_reached_from_the_version_six_wildcard() {
    let peer = PeerAddr::V6 {
        segments: [0x2001, 0xdb8, 0, 0, 0, 0, 0, 1],
        port: 443,
        flowinfo: 7,
        scope_id: 3,
    };
    assert_eq!(
        peer.bind_wildcard(),
        PeerAddr::V6 { segments: [0; 8], port: 0, flowinfo: 0, scope_id: 0 }
    );
}
