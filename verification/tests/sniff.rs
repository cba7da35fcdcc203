use conex::sniff::{classify_preface, http2_preface_bytes, sniff_transition, ProtocolVersion, ReplayBuffer};

#[test]
fn preface_classifies_as_version_2() {
    let preface = http2_preface_bytes();
    assert_eq!(preface, b"PRI * HTTP/2.0\r\n\r\nSM\r\n\r\n".to_vec());
    assert_eq!(classify_preface(&preface), ProtocolVersion::Version2);
}

#[test]
fn other_bytes_classify_as_version_1() {
    let bytes = b"GET / HTTP/1.1\r\nHost: x\r\n".to_vec();
    assert_eq!(classify_preface(&bytes), ProtocolVersion::Version1);
}

#[test]
fn transition_on_preface_yields_version_2_and_replays_all() {
    let (version, mut buffer) = sniff_transition(true, http2_preface_bytes());
    assert_eq!(version, ProtocolVersion::Version2);
    assert_eq!(buffer.remaining(), 24);
    let replayed = buffer.take(24);
    assert_eq!(replayed, b"PRI * HTTP/2.0\r\n\r\nSM\r\n\r\n".to_vec());
    assert_eq!(buffer.remaining(), 0);
}

#[test]
fn transition_on_other_bytes_yields_version_1() {
    let (version, _) = sniff_transition(true, b"GET / HTTP/1.1\r\nHost: a\r\n".to_vec());
    assert_eq!(version, ProtocolVersion::Version1);
}

#[test]
fn failed_read_falls_back_to_version_1_with_nothing_to_replay() {
    let (version, buffer) = sniff_transition(false, Vec::new());
    assert_eq!(version, ProtocolVersion::Version1);
    assert_eq!(buffer.remaining(), 0);
}

#[test]
fn failed_read_with_preface_bytes_is_still_version_1() {
    // classification demands a successful full read; the captured
    // bytes are replayed regardless
    let (version, buffer) = sniff_transition(false, http2_preface_bytes());
    assert_eq!(version, ProtocolVersion::Version1);
    assert_eq!(buffer.remaining(), 24);
}

#[test]
fn replay_serves_every_byte_once_in_order() {
    let mut buffer = ReplayBuffer::new(b"abcdef".to_vec());
    let first = buffer.take(4);
    assert_eq!(first, b"abcd".to_vec());
    assert_eq!(buffer.remaining(), 2);
    let second = buffer.take(10);
    assert_eq!(second, b"ef".to_vec());
    assert_eq!(buffer.remaining(), 0);
    let third = buffer.take(3);
    assert!(third.is_empty());
}
