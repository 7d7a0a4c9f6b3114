use bbr_injector::archive::{CompactionEvent, VdfInfo};
use bbr_injector::messages::{
    build_new_compact_vdf_message, build_respond_compact_vdf_message, frame_message, parse_compaction_key_from_announcement,
    parse_framed_message, CompactionKey, MessageError, MessageType,
};
use bbr_injector::metrics::{Counter, Timer};
use bbr_injector::peer::{default_protocol_version, handshake_capabilities, HandshakeError, InboundAction, PeerSession, WriteOutcome};
use bbr_injector::pending::{PendingAnnouncements, ANNOUNCEMENT_TRACK_TTL_NS};

fn event(field_vdf: i32) -> (CompactionEvent, VdfInfo) {
    let vdf = VdfInfo { challenge: vec![2; 32], number_of_iterations: 0x0102_0304_0506_0708, output: vec![3; 100] };
    let ev = CompactionEvent {
        event_id: 10,
        ts: 0,
        height: 0x0102_0304,
        header_hash: vec![1; 32],
        field_vdf,
        vdf_info: Some(vdf.clone()),
        respond_compact_vdf: vec![9, 9, 9],
    };
    (ev, vdf)
}

fn body(field: u8) -> Vec<u8> {
    let mut b = vec![1, 2, 3, 4];
    b.extend(vec![1u8; 32]);
    b.push(field);
    b.extend(vec![2u8; 32]);
    b.extend(vec![1, 2, 3, 4, 5, 6, 7, 8]);
    b.extend(vec![3u8; 100]);
    b
}

#[test]
fn new_compact_vdf_message_exact_bytes() {
    let (ev, vdf) = event(3);
    let msg = build_new_compact_vdf_message(&ev, &vdf).unwrap();
    let mut expected = vec![42, 0, 0, 0, 0, 177];
    expected.extend(body(3));
    assert_eq!(msg, expected);
}

#[test]
fn field_number_keeps_low_byte() {
    let (ev, vdf) = event(0x105);
    let msg = build_new_compact_vdf_message(&ev, &vdf).unwrap();
    assert_eq!(msg[6 + 36], 5);
}

#[test]
fn new_compact_vdf_message_size_errors() {
    let (mut ev, mut vdf) = event(1);
    vdf.output = vec![3; 99];
    assert_eq!(build_new_compact_vdf_message(&ev, &vdf), Err(MessageError::ClassgroupOutput));
    vdf.challenge = vec![2; 31];
    assert_eq!(build_new_compact_vdf_message(&ev, &vdf), Err(MessageError::ChallengeLength));
    ev.header_hash = vec![];
    assert_eq!(build_new_compact_vdf_message(&ev, &vdf), Err(MessageError::HeaderHashLength));
}

#[test]
fn respond_message_and_framing() {
    assert_eq!(build_respond_compact_vdf_message(&[7, 8]).unwrap(), vec![41, 0, 0, 0, 0, 2, 7, 8]);
    assert_eq!(frame_message(MessageType::RespondPeers, Some(0x0102), &[]).unwrap(), vec![44, 1, 1, 2, 0, 0, 0, 0]);
    let m = parse_framed_message(&[44, 1, 1, 2, 0, 0, 0, 1, 5]).unwrap();
    assert_eq!((m.msg_type, m.id, m.data), (44, Some(0x0102), vec![5]));
    assert!(parse_framed_message(&[44, 1, 1, 2, 0, 0, 0, 2, 5]).is_err());
    assert!(parse_framed_message(&[2, 0, 0, 0, 0, 0]).is_err());
    assert!(parse_framed_message(&[44, 2, 0, 0, 0, 0]).is_err());
}

#[test]
fn announcement_key_roundtrip_matches_request() {
    let (ev, vdf) = event(2);
    let msg = build_new_compact_vdf_message(&ev, &vdf).unwrap();
    let key = parse_compaction_key_from_announcement(&msg).unwrap().unwrap();
    assert_eq!(key.height, 0x0102_0304);
    assert_eq!(key.header_hash, vec![1; 32]);
    assert_eq!(key.field_vdf, 2);
    assert_eq!(key.vdf_info_bytes.len(), 140);
    let req_key = CompactionKey::from_request(&body(2)).unwrap();
    assert!(key.same_as(&req_key));
    let other = CompactionKey::from_request(&body(3)).unwrap();
    assert!(!key.same_as(&other));
}

#[test]
fn non_announcement_has_no_key() {
    let msg = build_respond_compact_vdf_message(&[1]).unwrap();
    assert!(parse_compaction_key_from_announcement(&msg).unwrap().is_none());
    assert_eq!(parse_compaction_key_from_announcement(&[42, 0, 0, 0, 0, 1, 0]).unwrap_err(), MessageError::MalformedNewCompactVdf);
    assert_eq!(parse_compaction_key_from_announcement(&[]).unwrap_err(), MessageError::MalformedMessage);
    assert_eq!(CompactionKey::from_request(&[0; 176]).unwrap_err(), MessageError::MalformedRequestCompactVdf);
}

#[test]
fn handshake_roundtrip_through_check() {
    let nid = "mainnet".to_string();
    let bytes = PeerSession::handshake_message(&nid, &None, &"bbr-injector/0.1.0".to_string()).unwrap();
    let msg = parse_framed_message(&bytes).unwrap();
    assert_eq!(msg.msg_type, 1);
    assert_eq!(&msg.data[0..4], &[0, 0, 0, 7]);
    assert_eq!(PeerSession::check_remote_handshake(&nid, &msg), Ok(()));
    assert_eq!(
        PeerSession::check_remote_handshake(&"testnet".to_string(), &msg),
        Err(HandshakeError::NetworkMismatch("mainnet".to_string()))
    );
    assert_eq!(default_protocol_version(), "0.0.36");
    assert_eq!(handshake_capabilities().len(), 4);
    let not_hs = parse_framed_message(&PeerSession::request_peers_message().unwrap()).unwrap();
    assert_eq!(PeerSession::check_remote_handshake(&nid, &not_hs), Err(HandshakeError::NotHandshake));
    let mut broken = parse_framed_message(&bytes).unwrap();
    broken.data.pop();
    assert_eq!(PeerSession::check_remote_handshake(&nid, &broken), Err(HandshakeError::Malformed));
}

#[test]
fn wallet_handshake_is_refused() {
    let nid = "mainnet".to_string();
    let bytes = PeerSession::handshake_message(&nid, &Some("0.0.37".to_string()), &"x".to_string()).unwrap();
    let mut msg = parse_framed_message(&bytes).unwrap();
    // node type byte follows three strings and the port
    let pos = 4 + 7 + 4 + 6 + 4 + 1 + 2;
    assert_eq!(msg.data[pos], 1);
    msg.data[pos] = 6;
    assert_eq!(PeerSession::check_remote_handshake(&nid, &msg), Err(HandshakeError::NotFullNode));
}

#[test]
fn inbound_actions() {
    let req = parse_framed_message(&frame_message(MessageType::RequestPeers, Some(9), &[]).unwrap()).unwrap();
    match PeerSession::inbound_action(req).unwrap() {
        InboundAction::Reply { bytes } => assert_eq!(bytes, vec![44, 1, 0, 9, 0, 0, 0, 4, 0, 0, 0, 0]),
        other => panic!("unexpected {:?}", other),
    }
    let peers = parse_framed_message(&frame_message(MessageType::RespondPeers, None, &[0, 0, 0, 0]).unwrap()).unwrap();
    match PeerSession::inbound_action(peers).unwrap() {
        InboundAction::PeerListReceived { peer_count } => assert_eq!(peer_count, 0),
        other => panic!("unexpected {:?}", other),
    }
    let bad = parse_framed_message(&frame_message(MessageType::RespondPeers, None, &[0, 0, 0, 1]).unwrap()).unwrap();
    assert_eq!(PeerSession::inbound_action(bad).unwrap_err(), MessageError::MalformedRespondPeers);
    let vdf_req = parse_framed_message(&frame_message(MessageType::RequestCompactVdf, Some(3), &body(1)).unwrap()).unwrap();
    match PeerSession::inbound_action(vdf_req).unwrap() {
        InboundAction::ServeProof { request, id, key } => {
            assert_eq!(request, body(1));
            assert_eq!(id, Some(3));
            assert_eq!(key.field_vdf, 1);
        }
        other => panic!("unexpected {:?}", other),
    }
    let other = parse_framed_message(&frame_message(MessageType::NewCompactVdf, None, &[]).unwrap()).unwrap();
    assert!(matches!(PeerSession::inbound_action(other).unwrap(), InboundAction::Ignore));
    assert_eq!(PeerSession::respond_proof_message(Some(3), &[1]).unwrap(), vec![41, 1, 0, 3, 0, 0, 0, 1, 1]);
}

#[test]
fn announcement_then_request_is_matched_once() {
    let (ev, vdf) = event(2);
    let msg = build_new_compact_vdf_message(&ev, &vdf).unwrap();
    let mut pending = PendingAnnouncements::new();
    PeerSession::on_outbound_sent(&mut pending, &msg, 1_000).unwrap();
    assert_eq!(pending.len(), 1);
    let key = CompactionKey::from_request(&body(2)).unwrap();
    let (mut hit, mut miss, mut delay) = (Counter::default(), Counter::default(), Timer::default());
    let sent = PeerSession::match_request(&mut pending, &key, 3_000_001_000, &mut hit, &mut miss, &mut delay);
    assert_eq!(sent, Some(1_000));
    assert_eq!((hit.get(), miss.get()), (1, 0));
    assert_eq!(delay.max_ms(), 3_000);
    let again = PeerSession::match_request(&mut pending, &key, 3_000_001_000, &mut hit, &mut miss, &mut delay);
    assert_eq!(again, None);
    assert_eq!(miss.get(), 1);
}

#[test]
fn expired_announcements_are_forgotten() {
    let (ev, vdf) = event(2);
    let msg = build_new_compact_vdf_message(&ev, &vdf).unwrap();
    let mut pending = PendingAnnouncements::new();
    PeerSession::on_outbound_sent(&mut pending, &msg, 0).unwrap();
    let (ev2, vdf2) = event(3);
    let msg2 = build_new_compact_vdf_message(&ev2, &vdf2).unwrap();
    PeerSession::on_outbound_sent(&mut pending, &msg2, ANNOUNCEMENT_TRACK_TTL_NS).unwrap();
    assert_eq!(pending.len(), 1);
    pending.cleanup(2 * ANNOUNCEMENT_TRACK_TTL_NS - 1);
    assert_eq!(pending.len(), 1);
    pending.cleanup(2 * ANNOUNCEMENT_TRACK_TTL_NS);
    assert_eq!(pending.len(), 0);
}

#[test]
fn resent_announcement_keeps_latest_time() {
    let (ev, vdf) = event(2);
    let msg = build_new_compact_vdf_message(&ev, &vdf).unwrap();
    let mut pending = PendingAnnouncements::new();
    PeerSession::on_outbound_sent(&mut pending, &msg, 5).unwrap();
    PeerSession::on_outbound_sent(&mut pending, &msg, 7).unwrap();
    assert_eq!(pending.len(), 1);
    let key = CompactionKey::from_request(&body(2)).unwrap();
    assert_eq!(pending.take(&key), Some(7));
}

#[test]
fn backoff_doubles_up_to_ten_seconds() {
    assert_eq!(PeerSession::next_backoff_ms(200, false), 400);
    assert_eq!(PeerSession::next_backoff_ms(6_000, false), 10_000);
    assert_eq!(PeerSession::next_backoff_ms(10_000, false), 10_000);
    assert_eq!(PeerSession::next_backoff_ms(10_000, true), 200);
}

#[test]
fn events_are_reported_sent_only_after_a_good_write() {
    assert_eq!(PeerSession::after_write(true, Some(4)), WriteOutcome::Sent { announcement_sent: Some(4) });
    assert_eq!(PeerSession::after_write(true, None), WriteOutcome::Sent { announcement_sent: None });
    assert_eq!(PeerSession::after_write(false, Some(4)), WriteOutcome::EndSession);
}
