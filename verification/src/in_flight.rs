use vstd::prelude::*;

verus! {

/// How events are pushed to peers.
#[derive(Clone, Copy, Debug, PartialEq, Eq, Structural)]
pub enum SendMode {
    /// Send `new_compact_vdf` announcements (normal gossip).
    Announcement,
    /// Send `respond_compact_vdf` payloads directly.
    RespondOnly,
}

impl Default for SendMode {
    fn default() -> (r: Self)
        ensures
            r == SendMode::Announcement,
    {
        SendMode::Announcement
    }
}

/// Runtime state that survives restarts (cursor, range end, speed, pause flag, mode).
#[derive(Clone, Copy, Debug, PartialEq, Eq, Structural)]
pub struct InFlightState {
    pub cursor_event_id: u64,
    pub end_event_id: Option<u64>,
    pub proofs_per_window: u32,
    pub window_ms: u64,
    pub paused: bool,
    pub send_mode: SendMode,
}

/// `max(x, 1)` over `u32`.
pub open spec fn at_least_one_u32(x: u32) -> u32 {
    if x == 0 { 1 } else { x }
}

/// `max(x, 1)` over `u64`.
pub open spec fn at_least_one_u64(x: u64) -> u64 {
    if x == 0 { 1 } else { x }
}

impl InFlightState {
    /// The speed settings are usable: both at least one.
    pub open spec fn speed_valid(&self) -> bool {
        self.proofs_per_window >= 1 && self.window_ms >= 1
    }

    /// Fills a zero speed setting from `defaults`, then clamps both settings to at least one.
    pub fn apply_defaults(self, defaults: &Self) -> (r: Self)
        ensures
            r.cursor_event_id == self.cursor_event_id,
            r.end_event_id == self.end_event_id,
            r.paused == self.paused,
            r.send_mode == self.send_mode,
            r.proofs_per_window == at_least_one_u32(
                if self.proofs_per_window == 0 { defaults.proofs_per_window } else { self.proofs_per_window },
            ),
            r.window_ms == at_least_one_u64(
                if self.window_ms == 0 { defaults.window_ms } else { self.window_ms },
            ),
            r.speed_valid(),
    {
        let mut s = self;
        if s.proofs_per_window == 0 {
            s.proofs_per_window = defaults.proofs_per_window;
        }
        if s.window_ms == 0 {
            s.window_ms = defaults.window_ms;
        }
        if s.proofs_per_window < 1 {
            s.proofs_per_window = 1;
        }
        if s.window_ms < 1 {
            s.window_ms = 1;
        }
        s
    }

    /// Moves the cursor.
    pub fn set_cursor_event_id(&mut self, cursor_event_id: u64)
        ensures
            *final(self) == (InFlightState { cursor_event_id, ..*old(self) }),
    {
        self.cursor_event_id = cursor_event_id;
    }

    /// Sets the send budget, each value clamped to at least one.
    pub fn set_speed(&mut self, proofs_per_window: u32, window_ms: u64)
        ensures
            *final(self) == (InFlightState {
                proofs_per_window: at_least_one_u32(proofs_per_window),
                window_ms: at_least_one_u64(window_ms),
                ..*old(self)
            }),
    {
        self.proofs_per_window = if proofs_per_window == 0 { 1 } else { proofs_per_window };
        self.window_ms = if window_ms == 0 { 1 } else { window_ms };
    }

    /// Sets cursor and optional end of the range together.
    pub fn set_cursor_and_end(&mut self, cursor_event_id: u64, end_event_id: Option<u64>)
        ensures
            *final(self) == (InFlightState { cursor_event_id, end_event_id, ..*old(self) }),
    {
        self.cursor_event_id = cursor_event_id;
        self.end_event_id = end_event_id;
    }

    /// Sets the pause flag.
    pub fn set_paused(&mut self, paused: bool)
        ensures
            *final(self) == (InFlightState { paused, ..*old(self) }),
    {
        self.paused = paused;
    }

    /// Sets the send mode.
    pub fn set_send_mode(&mut self, send_mode: SendMode)
        ensures
            *final(self) == (InFlightState { send_mode, ..*old(self) }),
    {
        self.send_mode = send_mode;
    }
}

} // verus!
