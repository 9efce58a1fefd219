use meshcore::identity::{Keystore, KeystoreInput};
use meshtnc::pipeline::receive;
use meshtnc::rxlog::parse_rxlog;

fn empty_keystore() -> Keystore {
    KeystoreInput { identities: vec![], contacts: vec![], groups: vec![] }.compile()
}

#[test]
fn receive_carries_signal_fields_and_leaves_port_absent() {
    let rec = parse_rxlog(&b"12345,RXLOG,-92.5,7.25,DEADBEEF\n".to_vec())
        .expect("expected a well-formed RXLOG record");
    let ks = empty_keystore();
    let (pkt, summary) = receive(rec, &ks);
    assert_eq!(pkt.rssi, Some(b"-92.5".to_vec()));
    assert_eq!(pkt.snr, Some(b"7.25".to_vec()));
    assert_eq!(pkt.port, None);
    // The packet library renders a one-line summary.
    assert!(!summary.contains('\n'));
}

#[test]
fn receive_survives_a_truncated_ack_payload() {
    // Header 0x0D selects the acknowledgement parser with no transport
    // words; a zero-length path leaves no checksum bytes, which the
    // packet library's own parser does not guard against. The pipeline
    // must deliver the frame anyway, as an incomplete packet.
    let rec = parse_rxlog(&b"5,RXLOG,-80,5,0D00\n".to_vec())
        .expect("expected a well-formed RXLOG record");
    let ks = empty_keystore();
    let (pkt, _summary) = receive(rec, &ks);
    assert_eq!(pkt.rssi, Some(b"-80".to_vec()));
    assert_eq!(pkt.port, None);
}

#[test]
fn receive_parses_a_complete_ack_payload() {
    // The same header with four checksum bytes parses cleanly.
    let rec = parse_rxlog(&b"5,RXLOG,-80,5,0D0011223344\n".to_vec())
        .expect("expected a well-formed RXLOG record");
    let ks = empty_keystore();
    let (pkt, summary) = receive(rec, &ks);
    assert_eq!(pkt.snr, Some(b"5".to_vec()));
    assert!(!summary.is_empty());
}

#[test]
fn receive_with_absent_rssi() {
    let rec = parse_rxlog(&b"99,RXLOG,,5,AA\n".to_vec())
        .expect("expected a well-formed RXLOG record");
    let ks = empty_keystore();
    let (pkt, _summary) = receive(rec, &ks);
    assert_eq!(pkt.rssi, None);
    assert_eq!(pkt.snr, Some(b"5".to_vec()));
}
