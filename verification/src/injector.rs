//! The injector's decisions: which archived event goes out next, when, to whom,
//! and how the cursor, pause flag and send budget move. The caller performs the
//! I/O (archive reads, channel sends, persistence) and feeds results back in.

use vstd::prelude::*;

use std::collections::VecDeque;

use crate::archive::{CompactionEvent, ReadCompactionEventsResponse};
use crate::in_flight::{at_least_one_u32, at_least_one_u64, InFlightState, SendMode};
use crate::messages::{
    announcement_result, build_new_compact_vdf_message, build_respond_compact_vdf_message, MessageError,
};
use crate::strings::{
    contains_str, count_of, counts_unique, counts_views, drop_count, get_count, no_dups, put_count,
    set_insert, set_remove, sorted_insert, sorted_strs, str_views, PeerCount,
};
use crate::wire::message_bytes;

verus! {

/// How often the scheduler runs when nothing else happens (ms).
pub const SCHED_INTERVAL_MS: u64 = 100;

/// Above this many buffered events no read is made.
pub const EVENT_BUF_HIGH_WATER: usize = 10_000;

/// An unacknowledged event is sent again after this long (5 s, in nanoseconds).
pub const INFLIGHT_RETRY_NS: u64 = 5_000_000_000;

/// Nanoseconds per millisecond.
pub const NS_PER_MS: u64 = 1_000_000;

/// An operator request from the control API.
#[derive(Debug, Clone, Copy, PartialEq, Eq, Structural)]
pub enum ControlCommand {
    SetPaused { paused: bool },
    SetSpeed { proofs_per_window: u32, window_ms: u64 },
    SetCursorAndEnd { cursor_event_id: u64, end_event_id: Option<u64> },
    SetSendMode { send_mode: SendMode },
}

/// Something a peer session reports.
#[derive(Debug, Clone)]
pub enum PeerEvent {
    Connected { addr: String },
    Disconnected { addr: String },
    PeerListReceived { addr: String, peer_count: usize },
    AnnouncementSent { event_id: u64 },
}

/// A change to the persisted runtime state that the caller must write out, in order.
#[derive(Debug, Clone, Copy, PartialEq, Eq, Structural)]
pub enum PersistOp {
    CursorEventId(u64),
    Paused(bool),
    Speed { proofs_per_window: u32, window_ms: u64 },
    CursorAndEnd { cursor_event_id: u64, end_event_id: Option<u64> },
    SendMode(SendMode),
}

/// The event that has been handed to peers and awaits a completed socket write.
#[derive(Debug)]
pub struct Inflight {
    pub event_id: u64,
    pub created_at_ns: u64,
    pub msg_bytes: Vec<u8>,
}

/// An event ready to go out: the message and the connected target peers.
#[derive(Debug)]
pub struct PreparedSend {
    pub event: CompactionEvent,
    pub msg_bytes: Vec<u8>,
    pub targets: Vec<String>,
}

/// A resend of the in-flight event.
#[derive(Debug)]
pub struct RetrySend {
    pub event_id: u64,
    pub msg_bytes: Vec<u8>,
    pub targets: Vec<String>,
}

/// Status of one configured peer.
#[derive(Debug, Clone)]
pub struct PeerStatusSnapshot {
    pub addr: String,
    pub connected: bool,
    pub reported_peers_known: bool,
    pub reported_peer_count: usize,
}

/// Everything the status API shows about the injector.
#[derive(Debug, Clone)]
pub struct InjectorSnapshot {
    pub started_ts: u64,
    pub updated_ts: u64,
    pub events_per_minute: u64,
    pub proofs_per_window: u32,
    pub window_ms: u64,
    pub window_tokens_remaining: u32,
    pub targets_total: usize,
    pub connected_peers: usize,
    pub paused: bool,
    pub end_event_id: Option<u64>,
    pub send_mode: SendMode,
    pub cursor_event_id: u64,
    pub sent_events_total: u64,
    pub first_event_id: u64,
    pub last_event_id: u64,
    pub peer_statuses: Vec<PeerStatusSnapshot>,
    pub backlog_events: usize,
    pub inflight_event_id: Option<u64>,
    pub last_error: Option<String>,
}

/// Why an operator request is refused.
#[derive(Debug, Clone, Copy, PartialEq, Eq, Structural)]
pub enum ControlRequestError {
    /// The cursor lies beyond the requested end of the range.
    CursorAfterEnd,
}

impl ControlCommand {
    /// The command for a cursor/range request; refused when the cursor lies beyond the end.
    pub fn from_cursor_request(cursor_event_id: u64, end_event_id: Option<u64>) -> (r: Result<ControlCommand, ControlRequestError>)
        ensures
            (end_event_id matches Some(e) && cursor_event_id > e) ==> r == Err::<ControlCommand, ControlRequestError>(ControlRequestError::CursorAfterEnd),
            !(end_event_id matches Some(e) && cursor_event_id > e) ==> r == Ok::<ControlCommand, ControlRequestError>(ControlCommand::SetCursorAndEnd { cursor_event_id, end_event_id }),
    {
        if let Some(end) = end_event_id {
            if cursor_event_id > end {
                return Err(ControlRequestError::CursorAfterEnd);
            }
        }
        Ok(ControlCommand::SetCursorAndEnd { cursor_event_id, end_event_id })
    }
}

/// Why the injector cannot start.
#[derive(Debug, Clone, Copy, PartialEq, Eq, Structural)]
pub enum InjectorError {
    /// No peer target resolved to any address.
    NoPeerTargets,
}

/// The cursor has reached the configured end of the range.
pub open spec fn end_reached(end: Option<u64>, cursor: u64) -> bool {
    end matches Some(e) && cursor >= e
}

/// `id` lies within the configured range end (no end: always).
pub open spec fn within_end(end: Option<u64>, id: u64) -> bool {
    match end {
        Some(e) => id <= e,
        None => true,
    }
}

/// `a - b`, or zero when `b > a`.
pub open spec fn sat_sub(a: u64, b: u64) -> u64 {
    if a >= b { (a - b) as u64 } else { 0 }
}

/// Whole milliseconds from `start_ns` to `now_ns` (zero if `now_ns` is earlier).
pub open spec fn elapsed_ms(start_ns: u64, now_ns: u64) -> u64 {
    sat_sub(now_ns, start_ns) / 1_000_000
}

/// Events admitted from a read: the longest prefix inside the range end.
pub open spec fn admitted_len(evs: Seq<CompactionEvent>, end: Option<u64>) -> nat
    decreases evs.len(),
{
    if evs.len() == 0 {
        0
    } else if !within_end(end, evs[0].event_id) {
        0
    } else {
        1 + admitted_len(evs.drop_first(), end)
    }
}

/// Events per minute at a budget of `ppw` per `window_ms` (integer division).
pub open spec fn events_per_minute(ppw: u32, window_ms: u64) -> u64 {
    if window_ms == 0 { 0 } else { ((ppw as int * 60_000) / window_ms as int) as u64 }
}

/// The message an event is sent as in `mode`, if one can be built.
pub open spec fn prepared_message(mode: SendMode, ev: CompactionEvent) -> Option<Seq<u8>> {
    match mode {
        SendMode::Announcement => match ev.vdf_info {
            None => None,
            Some(vdf) => match announcement_result(ev, vdf) {
                Ok(b) => Some(b),
                Err(_) => None,
            },
        },
        SendMode::RespondOnly => if ev.respond_compact_vdf@.len() <= u32::MAX {
            Some(message_bytes(41, None, ev.respond_compact_vdf@))
        } else {
            None
        },
    }
}

/// The part of the injector's state that is persisted.
pub open spec fn persisted_state(s: Injector) -> InFlightState {
    InFlightState {
        cursor_event_id: s.cursor_event_id,
        end_event_id: s.end_event_id,
        proofs_per_window: s.proofs_per_window,
        window_ms: s.window_ms,
        paused: s.paused,
        send_mode: s.send_mode,
    }
}

/// The persisted state after writing out one change (as the `InFlightState` setters do).
pub open spec fn apply_persist_op(st: InFlightState, op: PersistOp) -> InFlightState {
    match op {
        PersistOp::CursorEventId(c) => InFlightState { cursor_event_id: c, ..st },
        PersistOp::Paused(p) => InFlightState { paused: p, ..st },
        PersistOp::Speed { proofs_per_window, window_ms } => InFlightState {
            proofs_per_window: at_least_one_u32(proofs_per_window),
            window_ms: at_least_one_u64(window_ms),
            ..st
        },
        PersistOp::CursorAndEnd { cursor_event_id, end_event_id } => InFlightState { cursor_event_id, end_event_id, ..st },
        PersistOp::SendMode(m) => InFlightState { send_mode: m, ..st },
    }
}

/// The persisted state after writing out `ops` in order.
pub open spec fn apply_persist_ops(st: InFlightState, ops: Seq<PersistOp>) -> InFlightState
    decreases ops.len(),
{
    if ops.len() == 0 {
        st
    } else {
        apply_persist_ops(apply_persist_op(st, ops[0]), ops.drop_first())
    }
}

/// Writing out the changes that an operation appended to `before` (giving
/// `after`) turns the persisted image of the old state into that of the new one.
pub open spec fn persisted_in_step(s0: Injector, s1: Injector, before: Seq<PersistOp>, after: Seq<PersistOp>) -> bool {
    apply_persist_ops(persisted_state(s0), after.skip(before.len() as int)) == persisted_state(s1)
}

/// Writing out no change, one change or two changes appended to `ops`.
proof fn lemma_persist_steps(st: InFlightState, ops: Seq<PersistOp>)
    ensures
        apply_persist_ops(st, ops.skip(ops.len() as int)) == st,
        forall|a: PersistOp| #[trigger] apply_persist_ops(st, ops.push(a).skip(ops.len() as int)) == apply_persist_op(st, a),
        forall|a: PersistOp, b: PersistOp|
            #[trigger] apply_persist_ops(st, ops.push(a).push(b).skip(ops.len() as int)) == apply_persist_op(
                apply_persist_op(st, a),
                b,
            ),
{
    assert(ops.skip(ops.len() as int).len() == 0);
    assert forall|a: PersistOp| #[trigger] apply_persist_ops(st, ops.push(a).skip(ops.len() as int)) == apply_persist_op(st, a) by {
        reveal_with_fuel(apply_persist_ops, 2);
        let t = ops.push(a).skip(ops.len() as int);
        assert(t.len() == 1);
        assert(t[0] == a);
        assert(t.drop_first().len() == 0);
    }
    assert forall|a: PersistOp, b: PersistOp|
        #[trigger] apply_persist_ops(st, ops.push(a).push(b).skip(ops.len() as int)) == apply_persist_op(
            apply_persist_op(st, a),
            b,
        ) by {
        reveal_with_fuel(apply_persist_ops, 3);
        let t = ops.push(a).push(b).skip(ops.len() as int);
        assert(t.len() == 2);
        assert(t[0] == a);
        let d = t.drop_first();
        assert(d.len() == 1);
        assert(d[0] == b);
        assert(d.drop_first().len() == 0);
    }
}

/// The injector's state.
#[derive(Debug)]
pub struct Injector {
    pub paused: bool,
    pub end_event_id: Option<u64>,
    pub send_mode: SendMode,
    pub proofs_per_window: u32,
    pub window_ms: u64,
    pub window_tokens_remaining: u32,
    pub window_started_at_ns: u64,
    pub cursor_event_id: u64,
    pub sent_events_total: u64,
    pub event_buf: VecDeque<CompactionEvent>,
    pub first_event_id: u64,
    pub last_event_id: u64,
    pub last_error: Option<String>,
    pub peers: Vec<String>,
    pub connected_peers: Vec<String>,
    pub remote_peer_counts: Vec<PeerCount>,
    pub inflight: Option<Inflight>,
    pub started_ts: u64,
    /// How many events one archive read asks for (the configured batch size).
    pub events_read_limit: u32,
}

/// The send window after a budget refill at `now_ns`: once a whole window has
/// elapsed, the window restarts at the last window boundary and the budget is full again.
pub open spec fn budget_refilled(s: Injector, now_ns: u64) -> Injector {
    let e = elapsed_ms(s.window_started_at_ns, now_ns);
    if s.window_ms >= 1 && e >= s.window_ms {
        Injector {
            window_started_at_ns: (now_ns - (e % s.window_ms) * 1_000_000) as u64,
            window_tokens_remaining: s.proofs_per_window,
            ..s
        }
    } else {
        s
    }
}

impl Injector {
    /// Budget and window are positive, the budget left never exceeds the full
    /// budget, the peer lists have no duplicates (configured peers sorted by
    /// address), and nothing buffered or in flight lies beyond the range end.
    pub open spec fn wf(&self) -> bool {
        &&& self.proofs_per_window >= 1
        &&& self.window_ms >= 1
        &&& self.window_tokens_remaining <= self.proofs_per_window
        &&& no_dups(str_views(self.peers@))
        &&& sorted_strs(str_views(self.peers@))
        &&& no_dups(str_views(self.connected_peers@))
        &&& counts_unique(counts_views(self.remote_peer_counts@))
        &&& forall|i: int|
            0 <= i < self.event_buf@.len() ==> within_end(self.end_event_id, #[trigger] self.event_buf@[i].event_id)
        &&& (self.inflight matches Some(f) ==> within_end(self.end_event_id, f.event_id))
    }

    /// A fresh injector from the persisted state: budget and window clamped to at
    /// least one, a full budget, the window starting now, nothing buffered, no peer
    /// connected; the peers are the distinct resolved addresses, sorted; archive
    /// reads ask for `events_read_limit` events. Fails when no address resolved.
    pub fn new(state: &InFlightState, started_ts: u64, now_ns: u64, resolved: Vec<String>, events_read_limit: u32) -> (r: Result<Injector, InjectorError>)
        ensures
            resolved@.len() == 0 ==> r == Err::<Injector, InjectorError>(InjectorError::NoPeerTargets),
            resolved@.len() > 0 ==> (r matches Ok(inj) && {
                &&& inj.wf()
                &&& inj.paused == state.paused
                &&& inj.end_event_id == state.end_event_id
                &&& inj.send_mode == state.send_mode
                &&& inj.proofs_per_window == at_least_one_u32(state.proofs_per_window)
                &&& inj.window_ms == at_least_one_u64(state.window_ms)
                &&& inj.window_tokens_remaining == inj.proofs_per_window
                &&& inj.window_started_at_ns == now_ns
                &&& inj.cursor_event_id == state.cursor_event_id
                &&& inj.sent_events_total == 0
                &&& inj.event_buf@.len() == 0
                &&& inj.first_event_id == 0
                &&& inj.last_event_id == 0
                &&& inj.last_error is None
                &&& (forall|x: Seq<char>| str_views(inj.peers@).contains(x) <==> str_views(resolved@).contains(x))
                &&& inj.connected_peers@.len() == 0
                &&& inj.remote_peer_counts@.len() == 0
                &&& inj.inflight is None
                &&& inj.started_ts == started_ts
                &&& inj.events_read_limit == events_read_limit
                &&& (state.speed_valid() ==> persisted_state(inj) == *state)
            }),
    {
        if resolved.len() == 0 {
            return Err(InjectorError::NoPeerTargets);
        }
        let ghost all = str_views(resolved@);
        let mut peers: Vec<String> = Vec::new();
        assert(str_views(peers@) =~= Seq::<Seq<char>>::empty());
        for addr in it: resolved
            invariant
                all == str_views(it.seq()),
                no_dups(str_views(peers@)),
                sorted_strs(str_views(peers@)),
                forall|x: Seq<char>| str_views(peers@).contains(x) <==> (exists|k: int| 0 <= k < it.index() && #[trigger] all[k] == x),
        {
            let ghost before = str_views(peers@);
            let ghost i = it.index();
            sorted_insert(&mut peers, addr);
            assert forall|x: Seq<char>| str_views(peers@).contains(x) <==> (exists|k: int| 0 <= k < i + 1 && #[trigger] all[k] == x) by {
                if exists|k: int| 0 <= k < i + 1 && #[trigger] all[k] == x {
                    let k = choose|k: int| 0 <= k < i + 1 && #[trigger] all[k] == x;
                    if k < i {
                        assert(before.contains(x));
                    }
                }
                if str_views(peers@).contains(x) {
                    if x != all[i] {
                        assert(before.contains(x));
                    }
                }
            }
        }
        assert forall|x: Seq<char>| str_views(peers@).contains(x) <==> all.contains(x) by {
            if all.contains(x) {
                let k = choose|k: int| 0 <= k < all.len() && all[k] == x;
                assert(all[k] == x);
            }
        }
        let proofs_per_window = if state.proofs_per_window == 0 { 1 } else { state.proofs_per_window };
        let window_ms = if state.window_ms == 0 { 1 } else { state.window_ms };
        let inj = Injector {
            paused: state.paused,
            end_event_id: state.end_event_id,
            send_mode: state.send_mode,
            proofs_per_window,
            window_ms,
            window_tokens_remaining: proofs_per_window,
            window_started_at_ns: now_ns,
            cursor_event_id: state.cursor_event_id,
            sent_events_total: 0,
            event_buf: VecDeque::new(),
            first_event_id: 0,
            last_event_id: 0,
            last_error: None,
            peers,
            connected_peers: Vec::new(),
            remote_peer_counts: Vec::new(),
            inflight: None,
            started_ts,
            events_read_limit,
        };
        assert(str_views(inj.connected_peers@) =~= Seq::<Seq<char>>::empty());
        assert(counts_views(inj.remote_peer_counts@) =~= Seq::<(Seq<char>, usize)>::empty());
        Ok(inj)
    }

    /// Applies a peer session report. A completed send of the in-flight event
    /// advances the cursor to it, counts it, clears the in-flight slot and asks to
    /// persist the cursor; reaching the range end then pauses (persisted too).
    pub fn on_peer_event(&mut self, evt: PeerEvent, ops: &mut Vec<PersistOp>)
        requires
            old(self).wf(),
        ensures
            persisted_in_step(*old(self), *final(self), old(ops)@, final(ops)@),
            final(self).wf(),
            match evt {
                PeerEvent::Connected { addr } => {
                    &&& *final(self) == (Injector { connected_peers: final(self).connected_peers, ..*old(self) })
                    &&& forall|x: Seq<char>| str_views(final(self).connected_peers@).contains(x)
                        <==> (str_views(old(self).connected_peers@).contains(x) || x == addr@)
                    &&& final(ops)@ == old(ops)@
                },
                PeerEvent::Disconnected { addr } => {
                    &&& *final(self) == (Injector {
                        connected_peers: final(self).connected_peers,
                        remote_peer_counts: final(self).remote_peer_counts,
                        ..*old(self)
                    })
                    &&& forall|x: Seq<char>| str_views(final(self).connected_peers@).contains(x)
                        <==> (str_views(old(self).connected_peers@).contains(x) && x != addr@)
                    &&& count_of(counts_views(final(self).remote_peer_counts@), addr@) is None
                    &&& forall|a: Seq<char>| a != addr@ ==> count_of(counts_views(final(self).remote_peer_counts@), a)
                        == count_of(counts_views(old(self).remote_peer_counts@), a)
                    &&& final(ops)@ == old(ops)@
                },
                PeerEvent::PeerListReceived { addr, peer_count } => {
                    &&& *final(self) == (Injector { remote_peer_counts: final(self).remote_peer_counts, ..*old(self) })
                    &&& count_of(counts_views(final(self).remote_peer_counts@), addr@) == Some(peer_count)
                    &&& forall|a: Seq<char>| a != addr@ ==> count_of(counts_views(final(self).remote_peer_counts@), a)
                        == count_of(counts_views(old(self).remote_peer_counts@), a)
                    &&& final(ops)@ == old(ops)@
                },
                PeerEvent::AnnouncementSent { event_id } => if old(self).inflight matches Some(f) && f.event_id == event_id {
                    let reached = end_reached(old(self).end_event_id, event_id);
                    &&& *final(self) == (Injector {
                        cursor_event_id: event_id,
                        sent_events_total: if old(self).sent_events_total == u64::MAX { u64::MAX } else { (old(self).sent_events_total + 1) as u64 },
                        inflight: None,
                        paused: old(self).paused || reached,
                        ..*old(self)
                    })
                    &&& final(ops)@ == if reached {
                        old(ops)@.push(PersistOp::CursorEventId(event_id)).push(PersistOp::Paused(true))
                    } else {
                        old(ops)@.push(PersistOp::CursorEventId(event_id))
                    }
                } else {
                    &&& *final(self) == *old(self)
                    &&& final(ops)@ == old(ops)@
                },
            },
    {
        proof { lemma_persist_steps(persisted_state(*self), ops@); }
        match evt {
            PeerEvent::Connected { addr } => {
                let ghost before = str_views(self.connected_peers@);
                let ghost av = addr@;
                set_insert(&mut self.connected_peers, addr);
                assert forall|x: Seq<char>| str_views(self.connected_peers@).contains(x) <==> (before.contains(x) || x == av) by {
                    if !before.contains(av) {
                        let w = str_views(self.connected_peers@);
                        if w.contains(x) {
                            let k = choose|k: int| 0 <= k < w.len() && w[k] == x;
                            if k < before.len() {
                                assert(before[k] == x);
                            }
                        }
                        if before.contains(x) {
                            let k = choose|k: int| 0 <= k < before.len() && before[k] == x;
                            assert(w[k] == x);
                        }
                        if x == av {
                            assert(w[before.len() as int] == x);
                        }
                    }
                }
            },
            PeerEvent::Disconnected { addr } => {
                set_remove(&mut self.connected_peers, &addr);
                drop_count(&mut self.remote_peer_counts, &addr);
            },
            PeerEvent::PeerListReceived { addr, peer_count } => {
                put_count(&mut self.remote_peer_counts, addr, peer_count);
            },
            PeerEvent::AnnouncementSent { event_id } => {
                let matches = match &self.inflight {
                    Some(f) => f.event_id == event_id,
                    None => false,
                };
                if matches {
                    self.cursor_event_id = event_id;
                    self.sent_events_total = self.sent_events_total.saturating_add(1);
                    ops.push(PersistOp::CursorEventId(event_id));
                    self.inflight = None;
                    let reached = match self.end_event_id {
                        Some(end) => self.cursor_event_id >= end,
                        None => false,
                    };
                    if reached {
                        self.paused = true;
                        ops.push(PersistOp::Paused(true));
                    }
                }
            },
        }
    }

    /// Applies an operator command. Changing the range pauses, resets the sent
    /// count and drops buffered and in-flight events; changing the speed starts a
    /// new window with a full budget. Each change is also to be persisted.
    pub fn on_control_command(&mut self, cmd: ControlCommand, now_ns: u64, ops: &mut Vec<PersistOp>)
        requires
            old(self).wf(),
        ensures
            persisted_in_step(*old(self), *final(self), old(ops)@, final(ops)@),
            final(self).wf(),
            match cmd {
                ControlCommand::SetPaused { paused } => {
                    &&& *final(self) == (Injector { paused, ..*old(self) })
                    &&& final(ops)@ == old(ops)@.push(PersistOp::Paused(paused))
                },
                ControlCommand::SetSpeed { proofs_per_window, window_ms } => {
                    &&& *final(self) == (Injector {
                        proofs_per_window: at_least_one_u32(proofs_per_window),
                        window_ms: at_least_one_u64(window_ms),
                        window_tokens_remaining: at_least_one_u32(proofs_per_window),
                        window_started_at_ns: now_ns,
                        ..*old(self)
                    })
                    &&& final(ops)@ == old(ops)@.push(PersistOp::Speed {
                        proofs_per_window: at_least_one_u32(proofs_per_window),
                        window_ms: at_least_one_u64(window_ms),
                    })
                },
                ControlCommand::SetCursorAndEnd { cursor_event_id, end_event_id } => {
                    &&& *final(self) == (Injector {
                        paused: true,
                        end_event_id,
                        cursor_event_id,
                        sent_events_total: 0,
                        event_buf: final(self).event_buf,
                        inflight: None,
                        ..*old(self)
                    })
                    &&& final(self).event_buf@.len() == 0
                    &&& final(ops)@ == old(ops)@.push(PersistOp::CursorAndEnd { cursor_event_id, end_event_id }).push(
                        PersistOp::Paused(true),
                    )
                },
                ControlCommand::SetSendMode { send_mode } => {
                    &&& *final(self) == (Injector { send_mode, ..*old(self) })
                    &&& final(ops)@ == old(ops)@.push(PersistOp::SendMode(send_mode))
                },
            },
    {
        proof { lemma_persist_steps(persisted_state(*self), ops@); }
        match cmd {
            ControlCommand::SetPaused { paused } => {
                self.paused = paused;
                ops.push(PersistOp::Paused(paused));
            },
            ControlCommand::SetSpeed { proofs_per_window, window_ms } => {
                let proofs_per_window = if proofs_per_window == 0 { 1 } else { proofs_per_window };
                let window_ms = if window_ms == 0 { 1 } else { window_ms };
                self.proofs_per_window = proofs_per_window;
                self.window_ms = window_ms;
                self.window_tokens_remaining = proofs_per_window;
                self.window_started_at_ns = now_ns;
                ops.push(PersistOp::Speed { proofs_per_window, window_ms });
            },
            ControlCommand::SetCursorAndEnd { cursor_event_id, end_event_id } => {
                self.paused = true;
                self.end_event_id = end_event_id;
                self.cursor_event_id = cursor_event_id;
                self.sent_events_total = 0;
                self.event_buf.clear();
                self.inflight = None;
                ops.push(PersistOp::CursorAndEnd { cursor_event_id, end_event_id });
                ops.push(PersistOp::Paused(true));
            },
            ControlCommand::SetSendMode { send_mode } => {
                self.send_mode = send_mode;
                ops.push(PersistOp::SendMode(send_mode));
            },
        }
    }

    /// Whether an archive read is due: running, range end not reached, buffer
    /// below the high-water mark, nothing in flight, and the buffer empty.
    pub fn needs_refill(&self) -> (r: bool)
        ensures
            r == (!self.paused && !end_reached(self.end_event_id, self.cursor_event_id) && self.event_buf@.len()
                <= EVENT_BUF_HIGH_WATER && self.inflight is None && self.event_buf@.len() == 0),
    {
        if self.paused {
            return false;
        }
        if let Some(end) = self.end_event_id {
            if self.cursor_event_id >= end {
                return false;
            }
        }
        if self.event_buf.len() > EVENT_BUF_HIGH_WATER {
            return false;
        }
        if self.inflight.is_some() {
            return false;
        }
        self.event_buf.len() == 0
    }

    /// The read to make: events after the cursor, up to the configured batch size.
    pub fn read_request(&self) -> (r: (u64, u32))
        ensures
            r == (self.cursor_event_id, self.events_read_limit),
    {
        (self.cursor_event_id, self.events_read_limit)
    }

    /// Takes in the result of an archive read. A failure is recorded as the last
    /// error. Otherwise the log bounds are recorded; a cursor beyond the log's last
    /// event is pulled back to it (and nothing is buffered); a cursor behind the
    /// retained range jumps to just before its first event; then the events are
    /// buffered in order up to the first one beyond the range end.
    pub fn apply_read_events(&mut self, res: Result<ReadCompactionEventsResponse, String>, ops: &mut Vec<PersistOp>)
        requires
            old(self).wf(),
        ensures
            persisted_in_step(*old(self), *final(self), old(ops)@, final(ops)@),
            final(self).wf(),
            match res {
                Err(msg) => {
                    &&& *final(self) == (Injector { last_error: Some(msg), ..*old(self) })
                    &&& final(ops)@ == old(ops)@
                },
                Ok(resp) => {
                    let c0 = old(self).cursor_event_id;
                    if c0 > resp.last_event_id {
                        &&& *final(self) == (Injector {
                            last_error: None,
                            first_event_id: resp.first_event_id,
                            last_event_id: resp.last_event_id,
                            cursor_event_id: resp.last_event_id,
                            ..*old(self)
                        })
                        &&& final(ops)@ == old(ops)@.push(PersistOp::CursorEventId(resp.last_event_id))
                    } else {
                        let gap = c0 > 0 && resp.first_event_id > 0 && c0 < resp.first_event_id - 1;
                        let c1 = if gap { (resp.first_event_id - 1) as u64 } else { c0 };
                        &&& *final(self) == (Injector {
                            last_error: None,
                            first_event_id: resp.first_event_id,
                            last_event_id: resp.last_event_id,
                            cursor_event_id: c1,
                            event_buf: final(self).event_buf,
                            ..*old(self)
                        })
                        &&& final(self).event_buf@ == old(self).event_buf@ + resp.events@.take(
                            admitted_len(resp.events@, old(self).end_event_id) as int,
                        )
                        &&& final(ops)@ == if gap {
                            old(ops)@.push(PersistOp::CursorEventId(c1))
                        } else {
                            old(ops)@
                        }
                    }
                },
            },
    {
        proof { lemma_persist_steps(persisted_state(*self), ops@); }
        let resp = match res {
            Err(msg) => {
                self.last_error = Some(msg);
                return;
            },
            Ok(r) => r,
        };
        self.last_error = None;
        self.first_event_id = resp.first_event_id;
        self.last_event_id = resp.last_event_id;
        if self.cursor_event_id > resp.last_event_id {
            self.cursor_event_id = resp.last_event_id;
            ops.push(PersistOp::CursorEventId(self.cursor_event_id));
            return;
        }
        if self.cursor_event_id > 0 && resp.first_event_id > 0 && self.cursor_event_id < resp.first_event_id - 1 {
            self.cursor_event_id = resp.first_event_id - 1;
            ops.push(PersistOp::CursorEventId(self.cursor_event_id));
        }
        let ghost evs = resp.events@;
        let ghost buf0 = self.event_buf@;
        let ghost pre = *self;
        let total = resp.events.len();
        let end = self.end_event_id;
        let mut n: usize = 0;
        let mut stopped = false;
        for ev in it: resp.events
            invariant
                evs == it.seq(),
                total == evs.len(),
                end == self.end_event_id,
                *self == (Injector { event_buf: self.event_buf, ..pre }),
                !stopped ==> n == it.index(),
                stopped ==> n < evs.len() && !within_end(end, evs[n as int].event_id),
                n <= it.index(),
                forall|k: int| 0 <= k < n ==> within_end(end, #[trigger] evs[k].event_id),
                self.event_buf@ == buf0 + evs.take(n as int),
                forall|i: int| 0 <= i < buf0.len() ==> within_end(end, #[trigger] buf0[i].event_id),
        {
            if !stopped {
                let inside = match end {
                    Some(e) => ev.event_id <= e,
                    None => true,
                };
                if inside {
                    self.event_buf.push_back(ev);
                    assert(evs.take(n + 1) =~= evs.take(n as int).push(evs[n as int]));
                    n = n + 1;
                } else {
                    stopped = true;
                }
            }
        }
        proof {
            lemma_admitted_len(evs, end, n as int);
            let b = self.event_buf@;
            assert forall|i: int| 0 <= i < b.len() implies within_end(end, #[trigger] b[i].event_id) by {
                if i >= buf0.len() {
                    assert(b[i] == evs[i - buf0.len()]);
                }
            }
        }
    }

    /// Refills the send budget when a whole window has elapsed since the window
    /// started; the new window starts at the last window boundary before `now_ns`.
    pub fn refill_send_budget(&mut self, now_ns: u64)
        requires
            old(self).wf(),
        ensures
            persisted_state(*final(self)) == persisted_state(*old(self)),
            final(self).wf(),
            *final(self) == budget_refilled(*old(self), now_ns),
            ({
                let e = (if now_ns >= old(self).window_started_at_ns { now_ns - old(self).window_started_at_ns } else { 0 })
                    / 1_000_000;
                &&& e < old(self).window_ms ==> *final(self) == *old(self)
                &&& e >= old(self).window_ms ==> final(self).window_tokens_remaining == old(self).proofs_per_window
                    && final(self).window_started_at_ns <= now_ns
                    && now_ns - final(self).window_started_at_ns < old(self).window_ms * 1_000_000
                    && final(self).window_started_at_ns >= old(self).window_started_at_ns + old(self).window_ms * 1_000_000
            }),
    {
        proof { lemma_budget_refill_paced(*self, now_ns); }
        let elapsed_ns = if now_ns >= self.window_started_at_ns { now_ns - self.window_started_at_ns } else { 0 };
        let elapsed_ms = elapsed_ns / NS_PER_MS;
        if elapsed_ms < self.window_ms {
            return;
        }
        let remainder_ms = elapsed_ms % self.window_ms;
        assert(remainder_ms <= elapsed_ms) by (nonlinear_arith)
            requires
                remainder_ms == elapsed_ms % self.window_ms,
                self.window_ms >= 1,
        ;
        assert(remainder_ms * 1_000_000 <= elapsed_ns) by (nonlinear_arith)
            requires
                remainder_ms <= elapsed_ms,
                elapsed_ms == elapsed_ns / 1_000_000,
        ;
        self.window_started_at_ns = now_ns - remainder_ms * NS_PER_MS;
        self.window_tokens_remaining = self.proofs_per_window;
    }

    /// Decides whether an event may go out now: refills the budget, then refuses
    /// when paused, out of budget or still waiting on the in-flight event; when the
    /// range end is reached it pauses instead (persisted).
    pub fn send_gate(&mut self, now_ns: u64, ops: &mut Vec<PersistOp>) -> (go: bool)
        requires
            old(self).wf(),
        ensures
            persisted_in_step(*old(self), *final(self), old(ops)@, final(ops)@),
            final(self).wf(),
            ({
                let s1 = budget_refilled(*old(self), now_ns);
                if s1.paused || s1.window_tokens_remaining == 0 || s1.inflight is Some {
                    !go && *final(self) == s1 && final(ops)@ == old(ops)@
                } else if end_reached(s1.end_event_id, s1.cursor_event_id) {
                    !go && *final(self) == (Injector { paused: true, ..s1 }) && final(ops)@ == old(ops)@.push(
                        PersistOp::Paused(true),
                    )
                } else {
                    go && *final(self) == s1 && final(ops)@ == old(ops)@
                }
            }),
    {
        proof { lemma_persist_steps(persisted_state(*self), ops@); }
        self.refill_send_budget(now_ns);
        if self.paused {
            return false;
        }
        if self.window_tokens_remaining == 0 {
            return false;
        }
        if self.inflight.is_some() {
            return false;
        }
        if let Some(end) = self.end_event_id {
            if self.cursor_event_id >= end {
                self.paused = true;
                ops.push(PersistOp::Paused(true));
                return false;
            }
        }
        true
    }

    /// The connected peers that are configured targets (each once).
    pub fn send_targets(&self) -> (r: Vec<String>)
        requires
            self.wf(),
        ensures
            no_dups(str_views(r@)),
            forall|x: Seq<char>| str_views(r@).contains(x) <==> (str_views(self.connected_peers@).contains(x) && str_views(
                self.peers@,
            ).contains(x)),
    {
        let ghost c = str_views(self.connected_peers@);
        let ghost p = str_views(self.peers@);
        let mut r: Vec<String> = Vec::new();
        let n = self.connected_peers.len();
        let mut i: usize = 0;
        assert(str_views(r@) =~= Seq::<Seq<char>>::empty());
        while i < n
            invariant
                self.wf(),
                c == str_views(self.connected_peers@),
                p == str_views(self.peers@),
                n == c.len(),
                0 <= i <= n,
                no_dups(str_views(r@)),
                forall|x: Seq<char>| str_views(r@).contains(x) <==> (exists|k: int| 0 <= k < i && #[trigger] c[k] == x && p.contains(x)),
            decreases n - i,
        {
            let ghost before = str_views(r@);
            assert(c[i as int] == self.connected_peers@[i as int]@);
            if contains_str(&self.peers, &self.connected_peers[i]) {
                let a = self.connected_peers[i].clone();
                assert(!before.contains(c[i as int])) by {
                    if before.contains(c[i as int]) {
                        let k = choose|k: int| 0 <= k < i && #[trigger] c[k] == c[i as int] && p.contains(c[i as int]);
                        assert(c[k] == c[i as int]);
                    }
                }
                set_insert(&mut r, a);
                assert(str_views(r@) == before.push(c[i as int]));
                assert forall|x: Seq<char>| str_views(r@).contains(x) <==> (exists|k: int| 0 <= k < i + 1 && #[trigger] c[k] == x && p.contains(x)) by {
                    let w = str_views(r@);
                    if w.contains(x) {
                        let j = choose|j: int| 0 <= j < w.len() && w[j] == x;
                        if j < before.len() {
                            assert(before[j] == x);
                            assert(before.contains(x));
                        } else {
                            assert(c[i as int] == x);
                        }
                    }
                    if exists|k: int| 0 <= k < i + 1 && #[trigger] c[k] == x && p.contains(x) {
                        let k = choose|k: int| 0 <= k < i + 1 && #[trigger] c[k] == x && p.contains(x);
                        if k < i {
                            assert(before.contains(x));
                            let j = choose|j: int| 0 <= j < before.len() && before[j] == x;
                            assert(w[j] == x);
                        } else {
                            assert(w[before.len() as int] == x);
                        }
                    }
                }
            } else {
                assert forall|x: Seq<char>| str_views(r@).contains(x) <==> (exists|k: int| 0 <= k < i + 1 && #[trigger] c[k] == x && p.contains(x)) by {
                    if exists|k: int| 0 <= k < i + 1 && #[trigger] c[k] == x && p.contains(x) {
                        let k = choose|k: int| 0 <= k < i + 1 && #[trigger] c[k] == x && p.contains(x);
                        if k == i {
                            assert(p.contains(c[i as int]));
                        }
                    }
                }
            }
            i = i + 1;
        }
        assert forall|x: Seq<char>| str_views(r@).contains(x) <==> (c.contains(x) && p.contains(x)) by {
            if c.contains(x) && p.contains(x) {
                let k = choose|k: int| 0 <= k < c.len() && c[k] == x;
                assert(c[k] == x);
            }
        }
        r
    }
    /// Takes the next buffered event and builds its message for the current mode
    /// (announcement, or the stored response payload). An event that cannot be
    /// sent (no VDF info, or a message that cannot be built) is skipped: the cursor
    /// moves to it (persisted) and nothing is returned.
    pub fn prepare_send(&mut self, ops: &mut Vec<PersistOp>) -> (r: Option<PreparedSend>)
        requires
            old(self).wf(),
        ensures
            persisted_in_step(*old(self), *final(self), old(ops)@, final(ops)@),
            final(self).wf(),
            old(self).event_buf@.len() == 0 ==> r is None && *final(self) == *old(self) && final(ops)@ == old(ops)@,
            old(self).event_buf@.len() > 0 ==> ({
                let ev = old(self).event_buf@[0];
                &&& final(self).event_buf@ == old(self).event_buf@.drop_first()
                &&& match prepared_message(old(self).send_mode, ev) {
                    Some(b) => {
                        &&& r matches Some(p) && p.event == ev && p.msg_bytes@ == b
                            && within_end(old(self).end_event_id, ev.event_id)
                            && no_dups(str_views(p.targets@))
                            && (forall|x: Seq<char>| str_views(p.targets@).contains(x) <==> (str_views(
                                old(self).connected_peers@,
                            ).contains(x) && str_views(old(self).peers@).contains(x)))
                        &&& *final(self) == (Injector { event_buf: final(self).event_buf, ..*old(self) })
                        &&& final(ops)@ == old(ops)@
                    },
                    None => {
                        &&& r is None
                        &&& *final(self) == (Injector {
                            event_buf: final(self).event_buf,
                            cursor_event_id: ev.event_id,
                            ..*old(self)
                        })
                        &&& final(ops)@ == old(ops)@.push(PersistOp::CursorEventId(ev.event_id))
                    },
                }
            }),
    {
        proof { lemma_persist_steps(persisted_state(*self), ops@); }
        let ghost buf0 = self.event_buf@;
        if self.event_buf.len() == 0 {
            return None;
        }
        let ev = match self.event_buf.pop_front() {
            Some(e) => e,
            None => {
                return None;
            },
        };
        assert(buf0[0] == ev);
        assert(within_end(self.end_event_id, ev.event_id));
        proof {
            let b = self.event_buf@;
            assert forall|i: int| 0 <= i < b.len() implies within_end(self.end_event_id, #[trigger] b[i].event_id) by {
                assert(b[i] == buf0[i + 1]);
            }
        }
        let built: Option<Vec<u8>> = match self.send_mode {
            SendMode::Announcement => match &ev.vdf_info {
                None => None,
                Some(vdf) => match build_new_compact_vdf_message(&ev, vdf) {
                    Ok(b) => Some(b),
                    Err(_) => None,
                },
            },
            SendMode::RespondOnly => match build_respond_compact_vdf_message(ev.respond_compact_vdf.as_slice()) {
                Ok(b) => Some(b),
                Err(_) => None,
            },
        };
        match built {
            None => {
                self.cursor_event_id = ev.event_id;
                ops.push(PersistOp::CursorEventId(ev.event_id));
                None
            },
            Some(msg_bytes) => {
                let targets = self.send_targets();
                Some(PreparedSend { event: ev, msg_bytes, targets })
            },
        }
    }

    /// Records how many peers accepted a prepared event. If none did, the event
    /// goes back to the front of the buffer to be tried again; otherwise it becomes
    /// the in-flight event (sent at `now_ns`) and uses up one unit of budget.
    pub fn finish_send(&mut self, prepared: PreparedSend, enqueued: usize, now_ns: u64)
        requires
            old(self).wf(),
            within_end(old(self).end_event_id, prepared.event.event_id),
        ensures
            persisted_state(*final(self)) == persisted_state(*old(self)),
            final(self).wf(),
            enqueued == 0 ==> *final(self) == (Injector { event_buf: final(self).event_buf, ..*old(self) })
                && final(self).event_buf@ == seq![prepared.event] + old(self).event_buf@,
            enqueued > 0 ==> *final(self) == (Injector {
                inflight: Some(Inflight { event_id: prepared.event.event_id, created_at_ns: now_ns, msg_bytes: prepared.msg_bytes }),
                window_tokens_remaining: if old(self).window_tokens_remaining == 0 { 0 } else { (old(self).window_tokens_remaining - 1) as u32 },
                ..*old(self)
            }),
    {
        if enqueued == 0 {
            let ghost buf0 = self.event_buf@;
            self.event_buf.push_front(prepared.event);
            proof {
                let b = self.event_buf@;
                assert forall|i: int| 0 <= i < b.len() implies within_end(self.end_event_id, #[trigger] b[i].event_id) by {
                    if i > 0 {
                        assert(b[i] == buf0[i - 1]);
                    }
                }
            }
            return;
        }
        self.inflight = Some(Inflight { event_id: prepared.event.event_id, created_at_ns: now_ns, msg_bytes: prepared.msg_bytes });
        self.window_tokens_remaining = self.window_tokens_remaining.saturating_sub(1);
    }

    /// If the in-flight event has gone unacknowledged for [`INFLIGHT_RETRY_NS`],
    /// restarts its clock at `now_ns` and returns it to be sent again to the
    /// connected targets; otherwise nothing.
    pub fn maybe_retry_inflight(&mut self, now_ns: u64) -> (r: Option<RetrySend>)
        requires
            old(self).wf(),
        ensures
            persisted_state(*final(self)) == persisted_state(*old(self)),
            final(self).wf(),
            match old(self).inflight {
                Some(f) => if sat_sub(now_ns, f.created_at_ns) >= INFLIGHT_RETRY_NS {
                    &&& r matches Some(rs) && rs.event_id == f.event_id && rs.msg_bytes@ == f.msg_bytes@
                        && no_dups(str_views(rs.targets@))
                        && (forall|x: Seq<char>| str_views(rs.targets@).contains(x) <==> (str_views(
                            old(self).connected_peers@,
                        ).contains(x) && str_views(old(self).peers@).contains(x)))
                    &&& *final(self) == (Injector { inflight: Some(Inflight { created_at_ns: now_ns, ..f }), ..*old(self) })
                } else {
                    r is None && *final(self) == *old(self)
                },
                None => r is None && *final(self) == *old(self),
            },
    {
        let due = match &self.inflight {
            Some(f) => (if now_ns >= f.created_at_ns { now_ns - f.created_at_ns } else { 0 }) >= INFLIGHT_RETRY_NS,
            None => false,
        };
        if !due {
            return None;
        }
        let targets = self.send_targets();
        let f = self.inflight.take().unwrap();
        let msg_bytes = crate::bytes::copy_bytes(&f.msg_bytes);
        let event_id = f.event_id;
        self.inflight = Some(Inflight { event_id: f.event_id, created_at_ns: now_ns, msg_bytes: f.msg_bytes });
        Some(RetrySend { event_id, msg_bytes, targets })
    }

    /// The status shown by the control API at time `updated_ts`: settings,
    /// progress, the configured peers in address order with their connection state
    /// and reported peer counts, backlog, in-flight event and last error.
    pub fn snapshot(&self, updated_ts: u64) -> (r: InjectorSnapshot)
        requires
            self.wf(),
        ensures
            r.started_ts == self.started_ts,
            r.updated_ts == updated_ts,
            r.events_per_minute == events_per_minute(self.proofs_per_window, self.window_ms),
            r.proofs_per_window == self.proofs_per_window,
            r.window_ms == self.window_ms,
            r.window_tokens_remaining == self.window_tokens_remaining,
            r.targets_total == self.peers@.len(),
            r.connected_peers == self.connected_peers@.len(),
            r.paused == self.paused,
            r.end_event_id == self.end_event_id,
            r.send_mode == self.send_mode,
            r.cursor_event_id == self.cursor_event_id,
            r.sent_events_total == self.sent_events_total,
            r.first_event_id == self.first_event_id,
            r.last_event_id == self.last_event_id,
            r.backlog_events == self.event_buf@.len(),
            r.inflight_event_id == (match self.inflight {
                Some(f) => Some(f.event_id),
                None => None,
            }),
            r.last_error is Some <==> self.last_error is Some,
            r.last_error matches Some(e) ==> self.last_error matches Some(e0) && e@ == e0@,
            r.peer_statuses@.len() == self.peers@.len(),
            sorted_strs(str_views(self.peers@)),
            forall|i: int|
                0 <= i < self.peers@.len() ==> {
                    let st = #[trigger] r.peer_statuses@[i];
                    let a = self.peers@[i]@;
                    &&& st.addr@ == a
                    &&& st.connected == str_views(self.connected_peers@).contains(a)
                    &&& st.reported_peers_known == count_of(counts_views(self.remote_peer_counts@), a) is Some
                    &&& st.reported_peer_count == match count_of(counts_views(self.remote_peer_counts@), a) {
                        Some(c) => c,
                        None => 0,
                    }
                },
    {
        let epm: u64 = ((self.proofs_per_window as u64) * 60_000) / self.window_ms;
        let mut statuses: Vec<PeerStatusSnapshot> = Vec::new();
        let n = self.peers.len();
        let mut i: usize = 0;
        while i < n
            invariant
                self.wf(),
                n == self.peers@.len(),
                0 <= i <= n,
                statuses@.len() == i,
                forall|k: int|
                    0 <= k < i ==> {
                        let st = #[trigger] statuses@[k];
                        let a = self.peers@[k]@;
                        &&& st.addr@ == a
                        &&& st.connected == str_views(self.connected_peers@).contains(a)
                        &&& st.reported_peers_known == count_of(counts_views(self.remote_peer_counts@), a) is Some
                        &&& st.reported_peer_count == match count_of(counts_views(self.remote_peer_counts@), a) {
                            Some(c) => c,
                            None => 0,
                        }
                    },
            decreases n - i,
        {
            let addr = self.peers[i].clone();
            let connected = contains_str(&self.connected_peers, &addr);
            let reported = get_count(&self.remote_peer_counts, &addr);
            let st = PeerStatusSnapshot {
                addr,
                connected,
                reported_peers_known: reported.is_some(),
                reported_peer_count: match reported {
                    Some(c) => c,
                    None => 0,
                },
            };
            statuses.push(st);
            i = i + 1;
        }
        let last_error = match &self.last_error {
            Some(e) => Some(e.clone()),
            None => None,
        };
        let inflight_event_id = match &self.inflight {
            Some(f) => Some(f.event_id),
            None => None,
        };
        InjectorSnapshot {
            started_ts: self.started_ts,
            updated_ts,
            events_per_minute: epm,
            proofs_per_window: self.proofs_per_window,
            window_ms: self.window_ms,
            window_tokens_remaining: self.window_tokens_remaining,
            targets_total: self.peers.len(),
            connected_peers: self.connected_peers.len(),
            paused: self.paused,
            end_event_id: self.end_event_id,
            send_mode: self.send_mode,
            cursor_event_id: self.cursor_event_id,
            sent_events_total: self.sent_events_total,
            first_event_id: self.first_event_id,
            last_event_id: self.last_event_id,
            peer_statuses: statuses,
            backlog_events: self.event_buf.len(),
            inflight_event_id,
            last_error,
        }
    }
}

/// The send budget is paced by the window: a refill happens only once a whole
/// window has elapsed since the current window began; the refilled budget is the
/// configured one; and the new window begins at least one whole window after the
/// old one and less than one window before now.
pub proof fn lemma_budget_refill_paced(s: Injector, now_ns: u64)
    requires
        s.wf(),
    ensures
        ({
            let r = budget_refilled(s, now_ns);
            &&& r.window_tokens_remaining <= r.proofs_per_window
            &&& r.proofs_per_window == s.proofs_per_window
            &&& r.window_ms == s.window_ms
            &&& r.window_tokens_remaining != s.window_tokens_remaining || r.window_started_at_ns != s.window_started_at_ns
                ==> {
                &&& elapsed_ms(s.window_started_at_ns, now_ns) >= s.window_ms
                &&& r.window_tokens_remaining == s.proofs_per_window
                &&& r.window_started_at_ns >= s.window_started_at_ns + s.window_ms * 1_000_000
                &&& r.window_started_at_ns <= now_ns
                &&& now_ns - r.window_started_at_ns < s.window_ms * 1_000_000
            }
            &&& ((if now_ns >= s.window_started_at_ns { now_ns - s.window_started_at_ns } else { 0 }) / 1_000_000 < s.window_ms
                ==> r == s)
            &&& ((if now_ns >= s.window_started_at_ns { now_ns - s.window_started_at_ns } else { 0 }) / 1_000_000 >= s.window_ms
                ==> {
                &&& r == (Injector {
                    window_tokens_remaining: s.proofs_per_window,
                    window_started_at_ns: r.window_started_at_ns,
                    ..s
                })
                &&& r.window_started_at_ns >= s.window_started_at_ns + s.window_ms * 1_000_000
                &&& r.window_started_at_ns <= now_ns
                &&& now_ns - r.window_started_at_ns < s.window_ms * 1_000_000
            })
        }),
{
    let e = elapsed_ms(s.window_started_at_ns, now_ns);
    let w = s.window_ms;
    if e >= w {
        let en = sat_sub(now_ns, s.window_started_at_ns);
        assert(now_ns >= s.window_started_at_ns) by {
            if now_ns < s.window_started_at_ns {
                assert(en == 0);
                assert(e == 0);
            }
        }
        assert(en == now_ns - s.window_started_at_ns);
        let rem = e % w;
        assert(rem < w && rem <= e) by (nonlinear_arith)
            requires
                w >= 1,
                rem == e % w,
                e >= 0,
        ;
        assert(e * 1_000_000 <= en) by (nonlinear_arith)
            requires
                e == en / 1_000_000,
                en >= 0,
        ;
        assert(e - rem >= w) by (nonlinear_arith)
            requires
                w >= 1,
                rem == e % w,
                e >= w,
        ;
        assert((e - rem) * 1_000_000 >= w * 1_000_000) by (nonlinear_arith)
            requires
                e - rem >= w,
        ;
        assert(rem * 1_000_000 < w * 1_000_000) by (nonlinear_arith)
            requires
                rem < w,
        ;
        assert(rem * 1_000_000 <= e * 1_000_000) by (nonlinear_arith)
            requires
                rem <= e,
        ;
    }
}

/// `admitted_len` is the index of the first event beyond the range end (or the length).
proof fn lemma_admitted_len(evs: Seq<CompactionEvent>, end: Option<u64>, n: int)
    requires
        0 <= n <= evs.len(),
        forall|k: int| 0 <= k < n ==> within_end(end, #[trigger] evs[k].event_id),
        n == evs.len() || !within_end(end, evs[n].event_id),
    ensures
        admitted_len(evs, end) == n,
    decreases n,
{
    if n > 0 {
        let d = evs.drop_first();
        assert forall|k: int| 0 <= k < n - 1 implies within_end(end, #[trigger] d[k].event_id) by {
            assert(d[k] == evs[k + 1]);
        }
        if n < evs.len() {
            assert(d[n - 1] == evs[n]);
        }
        lemma_admitted_len(d, end, n - 1);
    }
}
} // verus!
