use bbr_injector::archive::{ArchiveError, CompactionEvent, ReadCompactionEventsResponse, VdfInfo};
use bbr_injector::in_flight::{InFlightState, SendMode};
use bbr_injector::injector::{
    ControlCommand, ControlRequestError, Injector, InjectorError, PeerEvent, PersistOp,
};
use bbr_injector::messages::CompactionKey;
use bbr_injector::metrics::Counter;
use bbr_injector::proofs::{ProofCache, ProofLookup, ProofServingMetrics};

const MS: u64 = 1_000_000;

fn ev(id: u64) -> CompactionEvent {
    CompactionEvent {
        event_id: id,
        ts: 0,
        height: 100,
        header_hash: vec![id as u8; 32],
        field_vdf: 1,
        vdf_info: Some(VdfInfo { challenge: vec![2; 32], number_of_iterations: 5, output: vec![3; 100] }),
        respond_compact_vdf: vec![7, id as u8],
    }
}

fn state(paused: bool, end: Option<u64>) -> InFlightState {
    InFlightState {
        cursor_event_id: 0,
        end_event_id: end,
        proofs_per_window: 2,
        window_ms: 1000,
        paused,
        send_mode: SendMode::Announcement,
    }
}

fn injector(end: Option<u64>) -> Injector {
    Injector::new(
        &state(false, end),
        1,
        0,
        vec!["b:1".to_string(), "a:1".to_string(), "b:1".to_string(), "c:1".to_string()],
        5000,
    )
    .unwrap()
}

fn resp(first: u64, last: u64, ids: &[u64]) -> Result<ReadCompactionEventsResponse, String> {
    Ok(ReadCompactionEventsResponse { first_event_id: first, last_event_id: last, events: ids.iter().map(|&i| ev(i)).collect() })
}

#[test]
fn new_dedups_and_sorts_peers() {
    let inj = injector(None);
    assert_eq!(inj.peers, vec!["a:1".to_string(), "b:1".to_string(), "c:1".to_string()]);
    assert_eq!(inj.window_tokens_remaining, 2);
    assert!(matches!(Injector::new(&state(true, None), 1, 0, vec![], 5000), Err(InjectorError::NoPeerTargets)));
    let snap = inj.snapshot(9);
    assert_eq!(snap.targets_total, 3);
    assert_eq!(snap.events_per_minute, 120);
    assert_eq!(snap.peer_statuses[0].addr, "a:1");
    assert!(!snap.peer_statuses[0].connected);
}

#[test]
fn read_respects_range_end() {
    let mut inj = injector(Some(12));
    let mut ops = Vec::new();
    assert!(inj.needs_refill());
    assert_eq!(inj.read_request(), (0, 5000));
    inj.apply_read_events(resp(10, 20, &[10, 11, 12, 13, 12]), &mut ops);
    assert_eq!(inj.event_buf.iter().map(|e| e.event_id).collect::<Vec<_>>(), vec![10, 11, 12]);
    assert_eq!(inj.first_event_id, 10);
    assert!(ops.is_empty());
    assert!(!inj.needs_refill());
}

#[test]
fn read_clamps_cursor_into_log() {
    let mut inj = injector(None);
    let mut ops = Vec::new();
    inj.on_control_command(ControlCommand::SetCursorAndEnd { cursor_event_id: 50, end_event_id: None }, 0, &mut ops);
    ops.clear();
    inj.apply_read_events(resp(1, 30, &[]), &mut ops);
    assert_eq!(inj.cursor_event_id, 30);
    assert_eq!(ops, vec![PersistOp::CursorEventId(30)]);
    inj.on_control_command(ControlCommand::SetCursorAndEnd { cursor_event_id: 3, end_event_id: None }, 0, &mut ops);
    ops.clear();
    inj.apply_read_events(resp(10, 30, &[10]), &mut ops);
    assert_eq!(inj.cursor_event_id, 9);
    assert_eq!(ops, vec![PersistOp::CursorEventId(9)]);
    assert_eq!(inj.event_buf.len(), 1);
    inj.apply_read_events(Err("locked".to_string()), &mut ops);
    assert_eq!(inj.last_error.as_deref(), Some("locked"));
}

#[test]
fn send_cycle_respects_budget_and_acks() {
    let mut inj = injector(None);
    let mut ops = Vec::new();
    inj.on_peer_event(PeerEvent::Connected { addr: "a:1".to_string() }, &mut ops);
    inj.on_peer_event(PeerEvent::Connected { addr: "z:9".to_string() }, &mut ops);
    inj.apply_read_events(resp(1, 9, &[1, 2, 3]), &mut ops);
    assert!(inj.send_gate(0, &mut ops));
    let p = inj.prepare_send(&mut ops).unwrap();
    assert_eq!(p.event.event_id, 1);
    assert_eq!(p.targets, vec!["a:1".to_string()]);
    assert_eq!(p.msg_bytes[0], 42);
    inj.finish_send(p, 1, 10);
    assert_eq!(inj.window_tokens_remaining, 1);
    // still waiting for the socket write
    assert!(!inj.send_gate(20, &mut ops));
    inj.on_peer_event(PeerEvent::AnnouncementSent { event_id: 99 }, &mut ops);
    assert_eq!(inj.cursor_event_id, 0);
    inj.on_peer_event(PeerEvent::AnnouncementSent { event_id: 1 }, &mut ops);
    assert_eq!(inj.cursor_event_id, 1);
    assert_eq!(inj.sent_events_total, 1);
    assert_eq!(ops, vec![PersistOp::CursorEventId(1)]);
    assert!(inj.send_gate(30, &mut ops));
    let p = inj.prepare_send(&mut ops).unwrap();
    inj.finish_send(p, 2, 40);
    inj.on_peer_event(PeerEvent::AnnouncementSent { event_id: 2 }, &mut ops);
    assert_eq!(inj.window_tokens_remaining, 0);
    // budget used up until the window ends
    assert!(!inj.send_gate(999 * MS, &mut ops));
    assert!(inj.send_gate(2_500 * MS, &mut ops));
    assert_eq!(inj.window_tokens_remaining, 2);
    assert_eq!(inj.window_started_at_ns, 2_000 * MS);
}

#[test]
fn full_channels_put_event_back() {
    let mut inj = injector(None);
    let mut ops = Vec::new();
    inj.apply_read_events(resp(1, 9, &[4, 5]), &mut ops);
    assert!(inj.send_gate(0, &mut ops));
    let p = inj.prepare_send(&mut ops).unwrap();
    assert!(p.targets.is_empty());
    inj.finish_send(p, 0, 0);
    assert_eq!(inj.event_buf.front().unwrap().event_id, 4);
    assert!(inj.inflight.is_none());
    assert_eq!(inj.window_tokens_remaining, 2);
}

#[test]
fn reaching_end_pauses() {
    let mut inj = injector(Some(1));
    let mut ops = Vec::new();
    inj.apply_read_events(resp(1, 9, &[1, 2]), &mut ops);
    assert_eq!(inj.event_buf.len(), 1);
    assert!(inj.send_gate(0, &mut ops));
    let p = inj.prepare_send(&mut ops).unwrap();
    inj.finish_send(p, 1, 0);
    inj.on_peer_event(PeerEvent::AnnouncementSent { event_id: 1 }, &mut ops);
    assert!(inj.paused);
    assert_eq!(ops, vec![PersistOp::CursorEventId(1), PersistOp::Paused(true)]);
}

#[test]
fn gate_pauses_at_end() {
    let mut inj = Injector::new(
        &InFlightState { cursor_event_id: 5, ..state(false, Some(5)) },
        1,
        0,
        vec!["a:1".to_string()],
        5000,
    )
    .unwrap();
    let mut ops = Vec::new();
    assert!(!inj.send_gate(0, &mut ops));
    assert!(inj.paused);
    assert_eq!(ops, vec![PersistOp::Paused(true)]);
}

#[test]
fn unsendable_events_are_skipped() {
    let mut inj = injector(None);
    let mut ops = Vec::new();
    let mut bad = ev(3);
    bad.vdf_info = None;
    let mut short = ev(4);
    short.header_hash = vec![1];
    inj.apply_read_events(Ok(ReadCompactionEventsResponse { first_event_id: 1, last_event_id: 9, events: vec![bad, short, ev(5)] }), &mut ops);
    assert!(inj.prepare_send(&mut ops).is_none());
    assert!(inj.prepare_send(&mut ops).is_none());
    assert_eq!(inj.cursor_event_id, 4);
    assert_eq!(ops, vec![PersistOp::CursorEventId(3), PersistOp::CursorEventId(4)]);
    inj.on_control_command(ControlCommand::SetSendMode { send_mode: SendMode::RespondOnly }, 0, &mut ops);
    let p = inj.prepare_send(&mut ops).unwrap();
    assert_eq!(p.msg_bytes, vec![41, 0, 0, 0, 0, 2, 7, 5]);
}

#[test]
fn retry_after_five_seconds() {
    let mut inj = injector(None);
    let mut ops = Vec::new();
    inj.on_peer_event(PeerEvent::Connected { addr: "c:1".to_string() }, &mut ops);
    inj.apply_read_events(resp(1, 9, &[1]), &mut ops);
    assert!(inj.send_gate(0, &mut ops));
    let p = inj.prepare_send(&mut ops).unwrap();
    let bytes = p.msg_bytes.clone();
    inj.finish_send(p, 1, 100);
    assert!(inj.maybe_retry_inflight(100 + 4_999 * MS).is_none());
    let r = inj.maybe_retry_inflight(100 + 5_000 * MS).unwrap();
    assert_eq!(r.event_id, 1);
    assert_eq!(r.msg_bytes, bytes);
    assert_eq!(r.targets, vec!["c:1".to_string()]);
    assert_eq!(inj.inflight.as_ref().unwrap().created_at_ns, 100 + 5_000 * MS);
}

#[test]
fn control_commands() {
    let mut inj = injector(None);
    let mut ops = Vec::new();
    inj.apply_read_events(resp(1, 9, &[1]), &mut ops);
    inj.on_control_command(ControlCommand::SetSpeed { proofs_per_window: 0, window_ms: 0 }, 77, &mut ops);
    assert_eq!((inj.proofs_per_window, inj.window_ms, inj.window_tokens_remaining, inj.window_started_at_ns), (1, 1, 1, 77));
    inj.on_control_command(ControlCommand::SetCursorAndEnd { cursor_event_id: 4, end_event_id: Some(8) }, 0, &mut ops);
    assert!(inj.paused);
    assert!(inj.event_buf.is_empty());
    inj.on_control_command(ControlCommand::SetPaused { paused: false }, 0, &mut ops);
    assert_eq!(
        ops,
        vec![
            PersistOp::Speed { proofs_per_window: 1, window_ms: 1 },
            PersistOp::CursorAndEnd { cursor_event_id: 4, end_event_id: Some(8) },
            PersistOp::Paused(true),
            PersistOp::Paused(false),
        ]
    );
    assert_eq!(ControlCommand::from_cursor_request(9, Some(8)), Err(ControlRequestError::CursorAfterEnd));
    assert_eq!(
        ControlCommand::from_cursor_request(8, Some(8)),
        Ok(ControlCommand::SetCursorAndEnd { cursor_event_id: 8, end_event_id: Some(8) })
    );
}

#[test]
fn peer_events_and_snapshot() {
    let mut inj = injector(None);
    let mut ops = Vec::new();
    inj.on_peer_event(PeerEvent::Connected { addr: "b:1".to_string() }, &mut ops);
    inj.on_peer_event(PeerEvent::PeerListReceived { addr: "b:1".to_string(), peer_count: 7 }, &mut ops);
    inj.on_peer_event(PeerEvent::PeerListReceived { addr: "b:1".to_string(), peer_count: 8 }, &mut ops);
    let s = inj.snapshot(5);
    assert_eq!(s.connected_peers, 1);
    assert!(s.peer_statuses[1].connected && s.peer_statuses[1].reported_peers_known);
    assert_eq!(s.peer_statuses[1].reported_peer_count, 8);
    inj.on_peer_event(PeerEvent::Disconnected { addr: "b:1".to_string() }, &mut ops);
    let s = inj.snapshot(6);
    assert_eq!(s.connected_peers, 0);
    assert!(!s.peer_statuses[1].reported_peers_known);
    assert_eq!(s.peer_statuses[1].reported_peer_count, 0);
    assert!(ops.is_empty());
}

fn request_body(tag: u8) -> Vec<u8> {
    let mut b = vec![0, 0, 0, 1];
    b.extend(vec![tag; 32]);
    b.push(0);
    b.extend(vec![2; 32]);
    b.extend(vec![0; 8]);
    b.extend(vec![3; 100]);
    b
}

#[test]
fn cache_hit_after_fetch_and_fifo_eviction() {
    let mut cache = ProofCache::new(0);
    let mut m = ProofServingMetrics::default();
    match cache.begin_fetch(&request_body(1), &mut m.requests_total, &mut m.cache_hits_total, &mut m.cache_misses_total).unwrap() {
        ProofLookup::Miss => {}
        ProofLookup::Hit(_) => panic!("empty cache hit"),
    }
    let got = cache.finish_fetch(&request_body(1), Ok(Some(vec![5, 5])), &mut m.fetch_ok_total, &mut m.fetch_not_found_total, &mut m.fetch_err_total);
    assert_eq!(got.unwrap(), Some(vec![5, 5]));
    match cache.begin_fetch(&request_body(1), &mut m.requests_total, &mut m.cache_hits_total, &mut m.cache_misses_total).unwrap() {
        ProofLookup::Hit(b) => assert_eq!(b, vec![5, 5]),
        ProofLookup::Miss => panic!("expected hit"),
    }
    // capacity one: a second key evicts the first
    let key2 = CompactionKey::from_request(&request_body(2)).unwrap();
    cache.insert(key2, vec![6]);
    let key1 = CompactionKey::from_request(&request_body(1)).unwrap();
    assert_eq!(cache.get(&key1), None);
    assert_eq!(cache.get(&CompactionKey::from_request(&request_body(2)).unwrap()), Some(vec![6]));
    assert_eq!((m.requests_total.get(), m.cache_hits_total.get(), m.cache_misses_total.get(), m.fetch_ok_total.get()), (2, 1, 1, 1));
}

#[test]
fn cache_updates_in_place_and_counts_outcomes() {
    let mut cache = ProofCache::new(2);
    let k = |t| CompactionKey::from_request(&request_body(t)).unwrap();
    cache.insert(k(1), vec![1]);
    cache.insert(k(2), vec![2]);
    cache.insert(k(1), vec![11]);
    cache.insert(k(3), vec![3]);
    assert_eq!(cache.get(&k(1)), None);
    assert_eq!(cache.get(&k(2)), Some(vec![2]));
    assert_eq!(cache.get(&k(3)), Some(vec![3]));
    let (mut ok, mut nf, mut err) = (Counter::default(), Counter::default(), Counter::default());
    assert_eq!(cache.finish_fetch(&request_body(4), Ok(None), &mut ok, &mut nf, &mut err).unwrap(), None);
    let e = cache.finish_fetch(&request_body(4), Err(ArchiveError { message: "x".to_string() }), &mut ok, &mut nf, &mut err).unwrap_err();
    assert_eq!(e.message, "x");
    assert_eq!((ok.get(), nf.get(), err.get()), (0, 1, 1));
    // an answer to a malformed request is counted but never cached
    let got = cache.finish_fetch(&[1, 2, 3], Ok(Some(vec![9])), &mut ok, &mut nf, &mut err).unwrap();
    assert_eq!(got, Some(vec![9]));
    assert_eq!(ok.get(), 1);
    assert_eq!(cache.get(&k(2)), Some(vec![2]));
    assert_eq!(cache.get(&k(3)), Some(vec![3]));
    let mut m = ProofServingMetrics::default();
    assert!(cache.begin_fetch(&[1, 2, 3], &mut m.requests_total, &mut m.cache_hits_total, &mut m.cache_misses_total).is_err());
    assert_eq!(m.requests_total.get(), 1);
}

fn apply_ops(st: &mut InFlightState, ops: &[PersistOp]) {
    for op in ops {
        match *op {
            PersistOp::CursorEventId(c) => st.set_cursor_event_id(c),
            PersistOp::Paused(p) => st.set_paused(p),
            PersistOp::Speed { proofs_per_window, window_ms } => st.set_speed(proofs_per_window, window_ms),
            PersistOp::CursorAndEnd { cursor_event_id, end_event_id } => st.set_cursor_and_end(cursor_event_id, end_event_id),
            PersistOp::SendMode(m) => st.set_send_mode(m),
        }
    }
}

fn persisted(inj: &Injector) -> InFlightState {
    InFlightState {
        cursor_event_id: inj.cursor_event_id,
        end_event_id: inj.end_event_id,
        proofs_per_window: inj.proofs_per_window,
        window_ms: inj.window_ms,
        paused: inj.paused,
        send_mode: inj.send_mode,
    }
}

#[test]
fn persisted_state_follows_every_change() {
    let mut st = state(false, Some(3));
    let mut inj = Injector::new(&st, 1, 0, vec!["a:1".to_string()], 7).unwrap();
    assert_eq!(inj.read_request(), (0, 7));
    assert_eq!(persisted(&inj), st);
    let mut ops = Vec::new();
    inj.on_peer_event(PeerEvent::Connected { addr: "a:1".to_string() }, &mut ops);
    inj.apply_read_events(resp(5, 9, &[6, 7]), &mut ops);
    inj.apply_read_events(resp(1, 9, &[1, 2, 3, 4]), &mut ops);
    inj.on_control_command(ControlCommand::SetSendMode { send_mode: SendMode::RespondOnly }, 5, &mut ops);
    inj.on_control_command(ControlCommand::SetSpeed { proofs_per_window: 0, window_ms: 30 }, 5, &mut ops);
    let mut t = 10 * MS;
    for _ in 0..20 {
        if inj.send_gate(t, &mut ops) {
            if let Some(p) = inj.prepare_send(&mut ops) {
                let id = p.event.event_id;
                inj.finish_send(p, 1, t);
                inj.on_peer_event(PeerEvent::AnnouncementSent { event_id: id }, &mut ops);
            }
        }
        t += 100 * MS;
    }
    apply_ops(&mut st, &ops);
    assert_eq!(persisted(&inj), st);
    assert!(inj.paused);
    assert_eq!(inj.cursor_event_id, 3);
}

#[test]
fn budget_refills_only_after_a_whole_window() {
    let mut inj = injector(None);
    inj.refill_send_budget(999 * MS);
    assert_eq!(inj.window_started_at_ns, 0);
    inj.window_tokens_remaining = 0;
    inj.refill_send_budget(999 * MS);
    assert_eq!(inj.window_tokens_remaining, 0);
    inj.refill_send_budget(3_400 * MS);
    assert_eq!(inj.window_tokens_remaining, 2);
    assert_eq!(inj.window_started_at_ns, 3_000 * MS);
}
