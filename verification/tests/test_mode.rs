use bbr_injector::archive::{CompactionEvent, ReadCompactionEventsResponse, VdfInfo};
use bbr_injector::testing::{
    check_needs_injection, counters_grew, decimal_string, delta_metrics, expected_replace_ok, fmt_metrics_brief, min_height_for_injection,
    replace_evidence_seen, test_passed, CompactVdfCheckRequest, CompactVdfCheckResponse, EventPicker, P2pMetrics, PickError,
    PickPhase,
};

fn metrics(replace_ok: u64, responded: u64) -> P2pMetrics {
    P2pMetrics { respond_compact_vdf_replace_ok: replace_ok, request_compact_vdf_responded: responded, new_compact_vdf_rx: 3, ..P2pMetrics::default() }
}

#[test]
fn deltas_and_verdicts() {
    let d = delta_metrics(&metrics(1, 2), &metrics(4, 2));
    assert_eq!(d.respond_compact_vdf_replace_ok, 3);
    assert_eq!(d.request_compact_vdf_responded, 0);
    assert_eq!(d.new_compact_vdf_rx, 0);
    assert!(test_passed(&metrics(1, 0), &None));
    assert!(!test_passed(&metrics(1, 0), &Some(metrics(1, 0))));
    assert!(test_passed(&metrics(1, 1), &Some(metrics(1, 0))));
    assert!(!test_passed(&metrics(0, 1), &None));
    assert_eq!(min_height_for_injection(3), 0);
    assert_eq!(min_height_for_injection(30), 25);
    assert_eq!(expected_replace_ok(&metrics(4, 0)), 5);
    assert!(replace_evidence_seen(&metrics(5, 0), 5, &None, Some(3)));
    assert!(!replace_evidence_seen(&metrics(5, 0), 5, &Some(metrics(2, 0)), Some(3)));
}

#[test]
fn counters_that_went_down_are_detected() {
    assert!(counters_grew(&metrics(1, 2), &metrics(4, 2)));
    assert!(counters_grew(&metrics(1, 2), &metrics(1, 2)));
    assert!(!counters_grew(&metrics(4, 2), &metrics(1, 2)));
    assert!(!counters_grew(&metrics(1, 2), &metrics(1, 1)));
}

#[test]
fn brief_metrics_text() {
    let m = P2pMetrics {
        new_compact_vdf_rx: 10,
        new_compact_vdf_requested_proof: 0,
        new_compact_vdf_got_proof_response: 7,
        respond_compact_vdf_replace_ok: 1234567890,
        request_compact_vdf_rx: 18446744073709551615,
        request_compact_vdf_responded: 9,
        ..P2pMetrics::default()
    };
    assert_eq!(
        fmt_metrics_brief(&m),
        "new_rx=10 requested=0 got_proof=7 replace_ok=1234567890 req_vdf_rx=18446744073709551615 req_vdf_rsp=9"
    );
    assert_eq!(decimal_string(0), "0");
}

#[test]
fn check_request_is_hex_encoded() {
    let vdf = VdfInfo { challenge: vec![0xab, 0x01], number_of_iterations: 9, output: vec![0xff] };
    let ev = CompactionEvent { event_id: 1, ts: 0, height: 7, header_hash: vec![0x0f, 0xa0], field_vdf: 300, vdf_info: None, respond_compact_vdf: vec![] };
    let r = CompactVdfCheckRequest::from_event(&ev, &vdf);
    assert_eq!(r.header_hash, "0fa0");
    assert_eq!(r.vdf_info.challenge, "ab01");
    assert_eq!(r.vdf_info.output, "ff");
    assert_eq!(r.field_vdf, 0);
    assert_eq!(r.height, 7);
}

#[test]
fn check_response_decision() {
    let yes = CompactVdfCheckResponse { block_found: true, already_fully_compactified: Some(false), needs_compact_proof: Some(true) };
    assert!(check_needs_injection(&yes));
    assert!(!check_needs_injection(&CompactVdfCheckResponse { already_fully_compactified: Some(true), ..yes }));
    assert!(!check_needs_injection(&CompactVdfCheckResponse { needs_compact_proof: None, ..yes }));
    assert!(!check_needs_injection(&CompactVdfCheckResponse { block_found: false, ..yes }));
}

fn ev(id: u64, height: u32) -> CompactionEvent {
    CompactionEvent {
        event_id: id,
        ts: 0,
        height,
        header_hash: vec![0; 32],
        field_vdf: 0,
        vdf_info: Some(VdfInfo { challenge: vec![0; 32], number_of_iterations: 1, output: vec![0; 100] }),
        respond_compact_vdf: vec![],
    }
}

#[test]
fn picker_searches_tail_then_start() {
    let head = ReadCompactionEventsResponse { first_event_id: 5, last_event_id: 60_000, events: vec![] };
    let mut p = EventPicker::start(&head, 100, 1).unwrap();
    assert_eq!(p.next_read(), Some(10_000));
    assert!(!p.is_candidate(&ev(1, 101)));
    p.consider(ev(10_200, 101), true, None);
    assert_eq!(p.next_read(), Some(10_200));
    p.end_batch(200);
    assert_eq!(p.phase(), PickPhase::Tail);
    p.end_batch(0);
    assert_eq!(p.phase(), PickPhase::FromStart);
    assert_eq!(p.next_read(), Some(4));
    assert!(p.is_candidate(&ev(6, 100)));
    p.consider(ev(6, 100), true, Some(true));
    assert!(p.is_full());
    p.end_batch(3);
    assert_eq!(p.phase(), PickPhase::Done);
    assert_eq!(p.next_read(), None);
    let (picked, start_after) = p.finish().unwrap();
    assert_eq!(picked.len(), 1);
    assert_eq!(picked[0].event_id, 6);
    assert_eq!(start_after, 10_000);
}

#[test]
fn picker_picks_only_events_every_node_needs() {
    let head = ReadCompactionEventsResponse { first_event_id: 1, last_event_id: 100, events: vec![] };
    let mut p = EventPicker::start(&head, 50, 2).unwrap();
    let mut no_vdf = ev(1, 10);
    no_vdf.vdf_info = None;
    p.consider(no_vdf, true, None); // no VDF info
    p.consider(ev(2, 60), true, None); // too high
    p.consider(ev(3, 10), false, Some(true)); // node A does not need it
    p.consider(ev(4, 10), true, Some(false)); // node B does not need it
    p.consider(ev(5, 10), true, Some(true));
    p.consider(ev(5, 10), true, Some(true)); // not after the position reached
    p.consider(ev(7, 10), true, None);
    p.consider(ev(8, 10), true, None); // already full
    assert!(p.is_full());
    assert_eq!(p.next_read(), None);
    let (picked, _) = p.finish().unwrap();
    assert_eq!(picked.iter().map(|e| e.event_id).collect::<Vec<_>>(), vec![5, 7]);
}

#[test]
fn picker_errors() {
    let empty = ReadCompactionEventsResponse { first_event_id: 0, last_event_id: 0, events: vec![] };
    assert_eq!(EventPicker::start(&empty, 1, 1).unwrap_err(), PickError::EmptyLog);
    let head = ReadCompactionEventsResponse { first_event_id: 1, last_event_id: 10, events: vec![] };
    let mut p = EventPicker::start(&head, 1, 2).unwrap();
    assert_eq!(p.start_after(), 0);
    p.end_batch(0);
    p.end_batch(0);
    assert_eq!(p.phase(), PickPhase::Done);
    assert_eq!(p.finish().unwrap_err(), PickError::NothingFound);
}
