//! Decisions of the end-to-end test against toy nodes: which archived events to
//! inject, how node metrics are compared, when the test passes, and the request
//! sent to a node's debug API.

use vstd::prelude::*;
use vstd::string::StringExecFns;

use crate::archive::{CompactionEvent, ReadCompactionEventsResponse, VdfInfo};
use crate::injector::sat_sub;

verus! {

/// Settings of a test run.
#[derive(Debug, Clone)]
pub struct TestArgs {
    pub toy_a_base_url: String,
    pub toy_b_base_url: Option<String>,
    pub target_peer: Option<String>,
    pub proofs_to_inject: usize,
}

/// Compact-VDF counters of a toy node's peer layer.
#[derive(Debug, Clone, Copy, Default, PartialEq, Eq, Structural)]
pub struct P2pMetrics {
    pub new_compact_vdf_rx: u64,
    pub new_compact_vdf_too_recent: u64,
    pub new_compact_vdf_already_compact_or_unknown: u64,
    pub new_compact_vdf_missing_header_block: u64,
    pub new_compact_vdf_needs_proof: u64,
    pub new_compact_vdf_requested_proof: u64,
    pub new_compact_vdf_got_proof_response: u64,
    pub request_compact_vdf_rx: u64,
    pub request_compact_vdf_responded: u64,
    pub request_compact_vdf_missing_or_not_compact: u64,
    pub respond_compact_vdf_rx: u64,
    pub respond_compact_vdf_rejected: u64,
    pub respond_compact_vdf_already_seen: u64,
    pub respond_compact_vdf_replace_failed: u64,
    pub respond_compact_vdf_replace_ok: u64,
}

/// A toy node's answer on whether a block still needs a compact proof.
#[derive(Debug, Clone, Copy, PartialEq, Eq, Structural)]
pub struct CompactVdfCheckResponse {
    pub block_found: bool,
    pub already_fully_compactified: Option<bool>,
    pub needs_compact_proof: Option<bool>,
}

/// Every counter of `after` is at least the one of `before`.
pub open spec fn metrics_grew(before: P2pMetrics, after: P2pMetrics) -> bool {
    &&& after.new_compact_vdf_rx >= before.new_compact_vdf_rx
    &&& after.new_compact_vdf_too_recent >= before.new_compact_vdf_too_recent
    &&& after.new_compact_vdf_already_compact_or_unknown >= before.new_compact_vdf_already_compact_or_unknown
    &&& after.new_compact_vdf_missing_header_block >= before.new_compact_vdf_missing_header_block
    &&& after.new_compact_vdf_needs_proof >= before.new_compact_vdf_needs_proof
    &&& after.new_compact_vdf_requested_proof >= before.new_compact_vdf_requested_proof
    &&& after.new_compact_vdf_got_proof_response >= before.new_compact_vdf_got_proof_response
    &&& after.request_compact_vdf_rx >= before.request_compact_vdf_rx
    &&& after.request_compact_vdf_responded >= before.request_compact_vdf_responded
    &&& after.request_compact_vdf_missing_or_not_compact >= before.request_compact_vdf_missing_or_not_compact
    &&& after.respond_compact_vdf_rx >= before.respond_compact_vdf_rx
    &&& after.respond_compact_vdf_rejected >= before.respond_compact_vdf_rejected
    &&& after.respond_compact_vdf_already_seen >= before.respond_compact_vdf_already_seen
    &&& after.respond_compact_vdf_replace_failed >= before.respond_compact_vdf_replace_failed
    &&& after.respond_compact_vdf_replace_ok >= before.respond_compact_vdf_replace_ok
}

/// Whether no counter went down from `before` to `after` (what [`delta_metrics`] needs).
pub fn counters_grew(before: &P2pMetrics, after: &P2pMetrics) -> (r: bool)
    ensures
        r == metrics_grew(*before, *after),
{
    after.new_compact_vdf_rx >= before.new_compact_vdf_rx
        && after.new_compact_vdf_too_recent >= before.new_compact_vdf_too_recent
        && after.new_compact_vdf_already_compact_or_unknown >= before.new_compact_vdf_already_compact_or_unknown
        && after.new_compact_vdf_missing_header_block >= before.new_compact_vdf_missing_header_block
        && after.new_compact_vdf_needs_proof >= before.new_compact_vdf_needs_proof
        && after.new_compact_vdf_requested_proof >= before.new_compact_vdf_requested_proof
        && after.new_compact_vdf_got_proof_response >= before.new_compact_vdf_got_proof_response
        && after.request_compact_vdf_rx >= before.request_compact_vdf_rx
        && after.request_compact_vdf_responded >= before.request_compact_vdf_responded
        && after.request_compact_vdf_missing_or_not_compact >= before.request_compact_vdf_missing_or_not_compact
        && after.respond_compact_vdf_rx >= before.respond_compact_vdf_rx
        && after.respond_compact_vdf_rejected >= before.respond_compact_vdf_rejected
        && after.respond_compact_vdf_already_seen >= before.respond_compact_vdf_already_seen
        && after.respond_compact_vdf_replace_failed >= before.respond_compact_vdf_replace_failed
        && after.respond_compact_vdf_replace_ok >= before.respond_compact_vdf_replace_ok
}

/// The per-counter growth from `before` to `after`.
pub fn delta_metrics(before: &P2pMetrics, after: &P2pMetrics) -> (d: P2pMetrics)
    requires
        metrics_grew(*before, *after),
    ensures
        d.new_compact_vdf_rx == after.new_compact_vdf_rx - before.new_compact_vdf_rx,
        d.new_compact_vdf_too_recent == after.new_compact_vdf_too_recent - before.new_compact_vdf_too_recent,
        d.new_compact_vdf_already_compact_or_unknown == after.new_compact_vdf_already_compact_or_unknown
            - before.new_compact_vdf_already_compact_or_unknown,
        d.new_compact_vdf_missing_header_block == after.new_compact_vdf_missing_header_block
            - before.new_compact_vdf_missing_header_block,
        d.new_compact_vdf_needs_proof == after.new_compact_vdf_needs_proof - before.new_compact_vdf_needs_proof,
        d.new_compact_vdf_requested_proof == after.new_compact_vdf_requested_proof - before.new_compact_vdf_requested_proof,
        d.new_compact_vdf_got_proof_response == after.new_compact_vdf_got_proof_response
            - before.new_compact_vdf_got_proof_response,
        d.request_compact_vdf_rx == after.request_compact_vdf_rx - before.request_compact_vdf_rx,
        d.request_compact_vdf_responded == after.request_compact_vdf_responded - before.request_compact_vdf_responded,
        d.request_compact_vdf_missing_or_not_compact == after.request_compact_vdf_missing_or_not_compact
            - before.request_compact_vdf_missing_or_not_compact,
        d.respond_compact_vdf_rx == after.respond_compact_vdf_rx - before.respond_compact_vdf_rx,
        d.respond_compact_vdf_rejected == after.respond_compact_vdf_rejected - before.respond_compact_vdf_rejected,
        d.respond_compact_vdf_already_seen == after.respond_compact_vdf_already_seen - before.respond_compact_vdf_already_seen,
        d.respond_compact_vdf_replace_failed == after.respond_compact_vdf_replace_failed
            - before.respond_compact_vdf_replace_failed,
        d.respond_compact_vdf_replace_ok == after.respond_compact_vdf_replace_ok - before.respond_compact_vdf_replace_ok,
{
    P2pMetrics {
        new_compact_vdf_rx: after.new_compact_vdf_rx - before.new_compact_vdf_rx,
        new_compact_vdf_too_recent: after.new_compact_vdf_too_recent - before.new_compact_vdf_too_recent,
        new_compact_vdf_already_compact_or_unknown: after.new_compact_vdf_already_compact_or_unknown
            - before.new_compact_vdf_already_compact_or_unknown,
        new_compact_vdf_missing_header_block: after.new_compact_vdf_missing_header_block
            - before.new_compact_vdf_missing_header_block,
        new_compact_vdf_needs_proof: after.new_compact_vdf_needs_proof - before.new_compact_vdf_needs_proof,
        new_compact_vdf_requested_proof: after.new_compact_vdf_requested_proof - before.new_compact_vdf_requested_proof,
        new_compact_vdf_got_proof_response: after.new_compact_vdf_got_proof_response
            - before.new_compact_vdf_got_proof_response,
        request_compact_vdf_rx: after.request_compact_vdf_rx - before.request_compact_vdf_rx,
        request_compact_vdf_responded: after.request_compact_vdf_responded - before.request_compact_vdf_responded,
        request_compact_vdf_missing_or_not_compact: after.request_compact_vdf_missing_or_not_compact
            - before.request_compact_vdf_missing_or_not_compact,
        respond_compact_vdf_rx: after.respond_compact_vdf_rx - before.respond_compact_vdf_rx,
        respond_compact_vdf_rejected: after.respond_compact_vdf_rejected - before.respond_compact_vdf_rejected,
        respond_compact_vdf_already_seen: after.respond_compact_vdf_already_seen - before.respond_compact_vdf_already_seen,
        respond_compact_vdf_replace_failed: after.respond_compact_vdf_replace_failed
            - before.respond_compact_vdf_replace_failed,
        respond_compact_vdf_replace_ok: after.respond_compact_vdf_replace_ok - before.respond_compact_vdf_replace_ok,
    }
}

/// The decimal digit character for `d < 10`.
pub open spec fn digit_char(d: int) -> char {
    if d == 0 { '0' } else if d == 1 { '1' } else if d == 2 { '2' } else if d == 3 { '3' } else if d == 4 { '4' }
    else if d == 5 { '5' } else if d == 6 { '6' } else if d == 7 { '7' } else if d == 8 { '8' } else { '9' }
}

/// Decimal notation of `n`, without leading zeros.
pub open spec fn decimal(n: nat) -> Seq<char>
    decreases n,
{
    if n < 10 {
        seq![digit_char(n as int)]
    } else {
        decimal(n / 10) + seq![digit_char((n % 10) as int)]
    }
}

fn digit_str(d: u64) -> (r: &'static str)
    requires
        d < 10,
    ensures
        r@ == seq![digit_char(d as int)],
{
    if d == 0 {
        proof { reveal_strlit("0"); }
        "0"
    } else if d == 1 {
        proof { reveal_strlit("1"); }
        "1"
    } else if d == 2 {
        proof { reveal_strlit("2"); }
        "2"
    } else if d == 3 {
        proof { reveal_strlit("3"); }
        "3"
    } else if d == 4 {
        proof { reveal_strlit("4"); }
        "4"
    } else if d == 5 {
        proof { reveal_strlit("5"); }
        "5"
    } else if d == 6 {
        proof { reveal_strlit("6"); }
        "6"
    } else if d == 7 {
        proof { reveal_strlit("7"); }
        "7"
    } else if d == 8 {
        proof { reveal_strlit("8"); }
        "8"
    } else {
        proof { reveal_strlit("9"); }
        "9"
    }
}

/// Decimal notation of `n`.
pub fn decimal_string(n: u64) -> (r: String)
    ensures
        r@ == decimal(n as nat),
    decreases n,
{
    if n < 10 {
        String::from_str(digit_str(n))
    } else {
        let mut s = decimal_string(n / 10);
        s.append(digit_str(n % 10));
        s
    }
}

/// The one-line summary of the counters the test looks at.
pub open spec fn metrics_brief(m: P2pMetrics) -> Seq<char> {
    "new_rx="@ + decimal(m.new_compact_vdf_rx as nat) + " requested="@ + decimal(m.new_compact_vdf_requested_proof as nat)
        + " got_proof="@ + decimal(m.new_compact_vdf_got_proof_response as nat) + " replace_ok="@ + decimal(
        m.respond_compact_vdf_replace_ok as nat,
    ) + " req_vdf_rx="@ + decimal(m.request_compact_vdf_rx as nat) + " req_vdf_rsp="@ + decimal(
        m.request_compact_vdf_responded as nat,
    )
}

/// The one-line summary of the counters the test looks at.
pub fn fmt_metrics_brief(m: &P2pMetrics) -> (r: String)
    ensures
        r@ == metrics_brief(*m),
{
    let mut s = String::from_str("new_rx=");
    s.append(decimal_string(m.new_compact_vdf_rx).as_str());
    s.append(" requested=");
    s.append(decimal_string(m.new_compact_vdf_requested_proof).as_str());
    s.append(" got_proof=");
    s.append(decimal_string(m.new_compact_vdf_got_proof_response).as_str());
    s.append(" replace_ok=");
    s.append(decimal_string(m.respond_compact_vdf_replace_ok).as_str());
    s.append(" req_vdf_rx=");
    s.append(decimal_string(m.request_compact_vdf_rx).as_str());
    s.append(" req_vdf_rsp=");
    s.append(decimal_string(m.request_compact_vdf_responded).as_str());
    s
}

/// The highest block height a test injects into: five below the node's peak.
pub fn min_height_for_injection(peak_height: u32) -> (r: u32)
    ensures
        r == (if peak_height >= 5 { peak_height - 5 } else { 0 }),
{
    peak_height.saturating_sub(5)
}

/// Whether the test passes: node A replaced a proof; when there is a node B,
/// A also answered a proof request and B replaced a proof too.
pub fn test_passed(delta_a: &P2pMetrics, delta_b: &Option<P2pMetrics>) -> (r: bool)
    ensures
        r == match delta_b {
            Some(b) => delta_a.respond_compact_vdf_replace_ok > 0 && delta_a.request_compact_vdf_responded > 0
                && b.respond_compact_vdf_replace_ok > 0,
            None => delta_a.respond_compact_vdf_replace_ok > 0,
        },
{
    match delta_b {
        Some(b) => delta_a.respond_compact_vdf_replace_ok > 0 && delta_a.request_compact_vdf_responded > 0
            && b.respond_compact_vdf_replace_ok > 0,
        None => delta_a.respond_compact_vdf_replace_ok > 0,
    }
}

/// Whether the nodes show the expected evidence: A's applied-proof count reached
/// `expected_a`, and B's reached `expected_b` when both are known.
pub fn replace_evidence_seen(after_a: &P2pMetrics, expected_a: u64, after_b: &Option<P2pMetrics>, expected_b: Option<u64>) -> (r: bool)
    ensures
        r == (after_a.respond_compact_vdf_replace_ok >= expected_a && match (expected_b, after_b) {
            (Some(e), Some(b)) => b.respond_compact_vdf_replace_ok >= e,
            _ => true,
        }),
{
    let a_ok = after_a.respond_compact_vdf_replace_ok >= expected_a;
    let b_ok = match (expected_b, after_b) {
        (Some(e), Some(b)) => b.respond_compact_vdf_replace_ok >= e,
        _ => true,
    };
    a_ok && b_ok
}

/// The applied-proof count that shows at least one more proof was applied.
pub fn expected_replace_ok(before: &P2pMetrics) -> (r: u64)
    requires
        before.respond_compact_vdf_replace_ok < u64::MAX,
    ensures
        r == before.respond_compact_vdf_replace_ok + 1,
{
    before.respond_compact_vdf_replace_ok + 1
}

/// Whether a node's answer says the event is worth injecting: the block is
/// known, not already fully compact, and needs a compact proof.
pub fn check_needs_injection(check: &CompactVdfCheckResponse) -> (r: bool)
    ensures
        r == (check.already_fully_compactified != Some(true) && check.block_found && check.needs_compact_proof == Some(
            true,
        )),
{
    if check.already_fully_compactified == Some(true) {
        return false;
    }
    check.block_found && check.needs_compact_proof == Some(true)
}


/// Lower-case hexadecimal digit for `d < 16`.
pub open spec fn hex_digit(d: int) -> char {
    if d < 10 { digit_char(d) } else if d == 10 { 'a' } else if d == 11 { 'b' } else if d == 12 { 'c' }
    else if d == 13 { 'd' } else if d == 14 { 'e' } else { 'f' }
}

/// Lower-case hexadecimal notation of bytes, two digits per byte.
pub open spec fn hex_lower(b: Seq<u8>) -> Seq<char>
    decreases b.len(),
{
    if b.len() == 0 {
        Seq::empty()
    } else {
        seq![hex_digit((b[0] / 16) as int), hex_digit((b[0] % 16) as int)] + hex_lower(b.drop_first())
    }
}

/// `hex::encode`: lower-case hexadecimal, two digits per byte.
#[verifier::external_body]
fn hex_encode(bytes: &[u8]) -> (r: String)
    ensures
        r@ == hex_lower(bytes@),
{
    hex::encode(bytes)
}

/// The VDF part of a check request, hex-encoded.
#[derive(Debug, Clone)]
pub struct CompactVdfCheckVdfInfo {
    pub challenge: String,
    pub number_of_iterations: u64,
    pub output: String,
}

/// The body of a toy node's "does this block need a compact proof" request.
#[derive(Debug, Clone)]
pub struct CompactVdfCheckRequest {
    pub height: u32,
    pub header_hash: String,
    pub field_vdf: u8,
    pub vdf_info: CompactVdfCheckVdfInfo,
}

impl CompactVdfCheckRequest {
    /// The request for event `ev` with VDF `vdf`: byte strings hex-encoded, a field
    /// number outside `0..=255` sent as 0.
    pub fn from_event(ev: &CompactionEvent, vdf: &VdfInfo) -> (r: Self)
        ensures
            r.height == ev.height,
            r.header_hash@ == hex_lower(ev.header_hash@),
            r.field_vdf == (if 0 <= ev.field_vdf <= 255 { ev.field_vdf as u8 } else { 0 }),
            r.vdf_info.challenge@ == hex_lower(vdf.challenge@),
            r.vdf_info.number_of_iterations == vdf.number_of_iterations,
            r.vdf_info.output@ == hex_lower(vdf.output@),
    {
        CompactVdfCheckRequest {
            height: ev.height,
            header_hash: hex_encode(ev.header_hash.as_slice()),
            field_vdf: if 0 <= ev.field_vdf && ev.field_vdf <= 255 { ev.field_vdf as u8 } else { 0 },
            vdf_info: CompactVdfCheckVdfInfo {
                challenge: hex_encode(vdf.challenge.as_slice()),
                number_of_iterations: vdf.number_of_iterations,
                output: hex_encode(vdf.output.as_slice()),
            },
        }
    }
}

/// How far back from the log's end the search starts.
pub const PICK_TAIL_WINDOW: u64 = 50_000;

/// Events per archive read while searching.
pub const PICK_READ_LIMIT: u32 = 200;

/// Where the search for injectable events stands.
#[derive(Debug, Clone, Copy, PartialEq, Eq, Structural)]
pub enum PickPhase {
    /// Scanning the most recent part of the log.
    Tail,
    /// Nothing found near the end: scanning from the start of the log.
    FromStart,
    /// Finished.
    Done,
}

/// Why no events could be picked.
#[derive(Debug, Clone, Copy, PartialEq, Eq, Structural)]
pub enum PickError {
    /// The archive's event log is empty.
    EmptyLog,
    /// No event both nodes need was found.
    NothingFound,
}

/// The search for events the toy nodes still need a compact proof for.
#[derive(Debug)]
pub struct EventPicker {
    max_height: u32,
    count: usize,
    first_event_id: u64,
    last_event_id: u64,
    start_after: u64,
    after_event_id: u64,
    phase: PickPhase,
    picked: Vec<CompactionEvent>,
}

/// The state of a search: its limits, the log bounds, where it stands and what it picked.
pub struct PickerView {
    pub max_height: u32,
    pub count: nat,
    pub first_event_id: u64,
    pub last_event_id: u64,
    pub start_after: u64,
    pub after_event_id: u64,
    pub phase: PickPhase,
    pub picked: Seq<CompactionEvent>,
}

impl View for EventPicker {
    type V = PickerView;

    closed spec fn view(&self) -> PickerView {
        PickerView {
            max_height: self.max_height,
            count: self.count as nat,
            first_event_id: self.first_event_id,
            last_event_id: self.last_event_id,
            start_after: self.start_after,
            after_event_id: self.after_event_id,
            phase: self.phase,
            picked: self.picked@,
        }
    }
}

/// An event is a candidate: low enough and carrying VDF info.
pub open spec fn is_candidate_event(max_height: u32, ev: CompactionEvent) -> bool {
    ev.height <= max_height && ev.vdf_info is Some
}

/// An event qualifies: it is a candidate, node A needs it, and node B (if any) needs it.
pub open spec fn qualifies(max_height: u32, ev: CompactionEvent, a_needs: bool, b_needs: Option<bool>) -> bool {
    is_candidate_event(max_height, ev) && a_needs && b_needs != Some(false)
}

/// What a search holds at every point: at most `count` picks, each a candidate
/// no later than the position reached, in strictly increasing event order.
pub open spec fn picks_valid(v: PickerView) -> bool {
    &&& v.picked.len() <= v.count
    &&& forall|i: int|
        0 <= i < v.picked.len() ==> is_candidate_event(v.max_height, #[trigger] v.picked[i]) && v.picked[i].event_id
            <= v.after_event_id
    &&& forall|i: int, j: int|
        0 <= i < j < v.picked.len() ==> (#[trigger] v.picked[i]).event_id < (#[trigger] v.picked[j]).event_id
}

/// The phase after the current one ends: with nothing picked in the tail, the
/// search restarts from the first event; otherwise it is finished.
pub open spec fn phase_after(v: PickerView) -> (PickPhase, u64) {
    if v.phase == PickPhase::Tail && v.picked.len() == 0 {
        (PickPhase::FromStart, sat_sub(v.first_event_id, 1))
    } else {
        (PickPhase::Done, v.after_event_id)
    }
}

impl EventPicker {
    #[verifier::type_invariant]
    spec fn inv(self) -> bool {
        picks_valid(self@)
    }

    /// A search for `count` events at heights up to `max_height`, given the log
    /// bounds read first; it starts [`PICK_TAIL_WINDOW`] events before the end.
    pub fn start(head: &ReadCompactionEventsResponse, max_height: u32, count: usize) -> (r: Result<EventPicker, PickError>)
        ensures
            head.last_event_id == 0 ==> r == Err::<EventPicker, PickError>(PickError::EmptyLog),
            head.last_event_id != 0 ==> (r matches Ok(p) && p@ == (PickerView {
                max_height,
                count: count as nat,
                first_event_id: head.first_event_id,
                last_event_id: head.last_event_id,
                start_after: sat_sub(head.last_event_id, PICK_TAIL_WINDOW),
                after_event_id: sat_sub(head.last_event_id, PICK_TAIL_WINDOW),
                phase: PickPhase::Tail,
                picked: Seq::empty(),
            })),
    {
        if head.last_event_id == 0 {
            return Err(PickError::EmptyLog);
        }
        let start_after = head.last_event_id.saturating_sub(PICK_TAIL_WINDOW);
        let p = EventPicker {
            max_height,
            count,
            first_event_id: head.first_event_id,
            last_event_id: head.last_event_id,
            start_after,
            after_event_id: start_after,
            phase: PickPhase::Tail,
            picked: Vec::new(),
        };
        assert(p@.picked =~= Seq::<CompactionEvent>::empty());
        Ok(p)
    }

    /// Where the search stands.
    pub fn phase(&self) -> (r: PickPhase)
        ensures
            r == self@.phase,
    {
        self.phase
    }

    /// The event id the tail scan started after.
    pub fn start_after(&self) -> (r: u64)
        ensures
            r == self@.start_after,
    {
        self.start_after
    }

    /// The next read to make (events after the returned id), or nothing when the
    /// search is over: finished, or enough events picked.
    pub fn next_read(&self) -> (r: Option<u64>)
        ensures
            r == (if self@.phase != PickPhase::Done && self@.picked.len() < self@.count {
                Some(self@.after_event_id)
            } else {
                None::<u64>
            }),
    {
        if self.phase != PickPhase::Done && self.picked.len() < self.count {
            Some(self.after_event_id)
        } else {
            None
        }
    }

    /// Whether an event is a candidate at all: low enough and carrying VDF info.
    pub fn is_candidate(&self, ev: &CompactionEvent) -> (r: bool)
        ensures
            r == is_candidate_event(self@.max_height, *ev),
    {
        ev.height <= self.max_height && ev.vdf_info.is_some()
    }

    /// Whether enough events are picked.
    pub fn is_full(&self) -> (r: bool)
        ensures
            r == (self@.picked.len() >= self@.count),
    {
        self.picked.len() >= self.count
    }

    /// Takes one event read from the archive, with node A's answer on whether it
    /// needs the event and node B's (if there is a node B). Once enough events
    /// are picked, or for an event not after the position already reached,
    /// nothing changes. Otherwise the search moves past the event, and picks it
    /// exactly when it qualifies.
    pub fn consider(&mut self, ev: CompactionEvent, a_needs: bool, b_needs: Option<bool>)
        ensures
            picks_valid(final(self)@),
            if old(self)@.picked.len() >= old(self)@.count || ev.event_id <= old(self)@.after_event_id {
                final(self)@ == old(self)@
            } else {
                final(self)@ == (PickerView {
                    after_event_id: ev.event_id,
                    picked: if qualifies(old(self)@.max_height, ev, a_needs, b_needs) {
                        old(self)@.picked.push(ev)
                    } else {
                        old(self)@.picked
                    },
                    ..old(self)@
                })
            },
    {
        proof { use_type_invariant(&*self); }
        if self.picked.len() >= self.count || ev.event_id <= self.after_event_id {
            return;
        }
        self.after_event_id = ev.event_id;
        let ok = ev.height <= self.max_height && ev.vdf_info.is_some() && a_needs && match b_needs {
            Some(b) => b,
            None => true,
        };
        if ok {
            let mut picked: Vec<CompactionEvent> = Vec::new();
            std::mem::swap(&mut picked, &mut self.picked);
            picked.push(ev);
            self.picked = picked;
        }
        proof { use_type_invariant(&*self); }
    }

    /// Ends a batch of `batch_len` events: an empty batch, reaching the log's last
    /// event, or having enough events ends the current phase (see [`phase_after`]).
    pub fn end_batch(&mut self, batch_len: usize)
        ensures
            picks_valid(final(self)@),
            ({
                let ends = batch_len == 0 || old(self)@.after_event_id >= old(self)@.last_event_id
                    || old(self)@.picked.len() >= old(self)@.count;
                if ends && old(self)@.phase != PickPhase::Done {
                    final(self)@ == (PickerView {
                        phase: phase_after(old(self)@).0,
                        after_event_id: phase_after(old(self)@).1,
                        ..old(self)@
                    })
                } else {
                    final(self)@ == old(self)@
                }
            }),
    {
        proof { use_type_invariant(&*self); }
        let ends = batch_len == 0 || self.after_event_id >= self.last_event_id || self.picked.len() >= self.count;
        if ends && self.phase != PickPhase::Done {
            if self.phase == PickPhase::Tail && self.picked.len() == 0 {
                self.phase = PickPhase::FromStart;
                self.after_event_id = self.first_event_id.saturating_sub(1);
            } else {
                self.phase = PickPhase::Done;
            }
        }
        proof { use_type_invariant(&*self); }
    }

    /// The picked events and where the tail scan started; an error when none were
    /// picked. The events are at most `count` candidates in increasing event order.
    pub fn finish(self) -> (r: Result<(Vec<CompactionEvent>, u64), PickError>)
        ensures
            picks_valid(self@),
            self@.picked.len() == 0 ==> r == Err::<(Vec<CompactionEvent>, u64), PickError>(PickError::NothingFound),
            self@.picked.len() > 0 ==> (r matches Ok((v, s)) && v@ == self@.picked && s == self@.start_after),
    {
        proof { use_type_invariant(&self); }
        if self.picked.len() == 0 {
            return Err(PickError::NothingFound);
        }
        Ok((self.picked, self.start_after))
    }
}

} // verus!
