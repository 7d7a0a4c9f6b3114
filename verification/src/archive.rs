use vstd::prelude::*;

use crate::config::ArchiveConfig;

verus! {

/// Which VDF of a block a compact proof replaces.
#[derive(Clone, Copy, Debug, PartialEq, Eq, Structural)]
pub enum FieldVdf {
    Unspecified,
    CcEosVdf,
    IccEosVdf,
    CcSpVdf,
    CcIpVdf,
}

/// A value that names no [`FieldVdf`].
#[derive(Clone, Copy, Debug, PartialEq, Eq, Structural)]
pub struct InvalidFieldVdf {
    pub value: i32,
}

impl FieldVdf {
    /// The wire number of each field.
    pub open spec fn spec_code(self) -> i32 {
        match self {
            FieldVdf::Unspecified => 0,
            FieldVdf::CcEosVdf => 1,
            FieldVdf::IccEosVdf => 2,
            FieldVdf::CcSpVdf => 3,
            FieldVdf::CcIpVdf => 4,
        }
    }

    /// The wire number of the field.
    pub fn code(&self) -> (r: i32)
        ensures
            r == self.spec_code(),
    {
        match self {
            FieldVdf::Unspecified => 0,
            FieldVdf::CcEosVdf => 1,
            FieldVdf::IccEosVdf => 2,
            FieldVdf::CcSpVdf => 3,
            FieldVdf::CcIpVdf => 4,
        }
    }

    /// The field with wire number `value`; an error for numbers outside `0..=4`.
    pub fn try_from(value: i32) -> (r: Result<FieldVdf, InvalidFieldVdf>)
        ensures
            match r {
                Ok(f) => 0 <= value <= 4 && f.spec_code() == value,
                Err(e) => !(0 <= value <= 4) && e.value == value,
            },
    {
        match value {
            0 => Ok(FieldVdf::Unspecified),
            1 => Ok(FieldVdf::CcEosVdf),
            2 => Ok(FieldVdf::IccEosVdf),
            3 => Ok(FieldVdf::CcSpVdf),
            4 => Ok(FieldVdf::CcIpVdf),
            _ => Err(InvalidFieldVdf { value }),
        }
    }
}

/// The VDF a compaction event concerns.
#[derive(Clone, Debug)]
pub struct VdfInfo {
    pub challenge: Vec<u8>,
    pub number_of_iterations: u64,
    pub output: Vec<u8>,
}

/// One archived compact proof, as listed in the event log.
#[derive(Clone, Debug)]
pub struct CompactionEvent {
    pub event_id: u64,
    pub ts: u64,
    pub height: u32,
    pub header_hash: Vec<u8>,
    pub field_vdf: i32,
    pub vdf_info: Option<VdfInfo>,
    pub respond_compact_vdf: Vec<u8>,
}

/// A batch of events together with the bounds of the whole log.
#[derive(Clone, Debug)]
pub struct ReadCompactionEventsResponse {
    pub first_event_id: u64,
    pub last_event_id: u64,
    pub events: Vec<CompactionEvent>,
}

impl Default for ReadCompactionEventsResponse {
    fn default() -> (r: Self)
        ensures
            r.first_event_id == 0,
            r.last_event_id == 0,
            r.events@.len() == 0,
    {
        ReadCompactionEventsResponse { first_event_id: 0, last_event_id: 0, events: Vec::new() }
    }
}

/// One row of the `compact_proofs` table as SQLite hands it out.
#[derive(Clone, Debug)]
pub struct ArchiveRow {
    pub event_id: i64,
    pub ts: i64,
    pub height: i64,
    pub header_hash: Vec<u8>,
    pub field_vdf: i64,
    pub vdf_challenge: Vec<u8>,
    pub vdf_iters: i64,
    pub vdf_output: Vec<u8>,
    pub respond_compact_vdf: Vec<u8>,
}

/// `max(x, 0)` as an unsigned value.
pub open spec fn non_negative(x: i64) -> u64 {
    if x < 0 { 0 } else { x as u64 }
}

fn clamp_non_negative(x: i64) -> (r: u64)
    ensures
        r == non_negative(x),
{
    if x < 0 { 0 } else { x as u64 }
}

/// The event a row describes: negative numbers read as zero, the height keeps
/// the low 32 bits, the field keeps the low 32 bits of the stored number.
pub open spec fn row_event_matches(row: ArchiveRow, ev: CompactionEvent) -> bool {
    &&& ev.event_id == non_negative(row.event_id)
    &&& ev.ts == non_negative(row.ts)
    &&& ev.height == non_negative(row.height) as u32
    &&& ev.header_hash@ == row.header_hash@
    &&& ev.field_vdf == row.field_vdf as i32
    &&& ev.vdf_info matches Some(v) && v.challenge@ == row.vdf_challenge@
        && v.number_of_iterations == non_negative(row.vdf_iters) && v.output@ == row.vdf_output@
    &&& ev.respond_compact_vdf@ == row.respond_compact_vdf@
}

/// Handle on the local proof archive (its location and lock timeout).
#[derive(Clone, Debug)]
pub struct ArchiveDb {
    pub db_path: String,
    pub busy_timeout_ms: u64,
}

/// Why the archive could not answer.
#[derive(Clone, Debug)]
pub struct ArchiveError {
    pub message: String,
}

impl ArchiveDb {
    /// A handle on the archive that `cfg` names; the busy timeout is at least one millisecond.
    pub fn new(cfg: &ArchiveConfig) -> (r: Result<ArchiveDb, ArchiveError>)
        ensures
            r matches Ok(db) && db.db_path@ == cfg.db_path@
                && db.busy_timeout_ms == (if cfg.busy_timeout_ms == 0 { 1 } else { cfg.busy_timeout_ms }),
    {
        let busy_timeout_ms = if cfg.busy_timeout_ms == 0 { 1 } else { cfg.busy_timeout_ms };
        Ok(ArchiveDb { db_path: cfg.db_path.clone(), busy_timeout_ms })
    }

    /// The SQL `LIMIT` used for a read of `limit` events: at least one.
    pub fn read_limit(limit: u32) -> (r: i64)
        ensures
            r == (if limit == 0 { 1 } else { limit as i64 }),
    {
        if limit == 0 { 1 } else { limit as i64 }
    }

    /// The SQL parameter for `event_id > ?`: the cursor reinterpreted as a signed number.
    pub fn after_param(after_event_id: u64) -> (r: i64)
        ensures
            r == after_event_id as i64,
    {
        after_event_id as i64
    }

    /// The event a row describes.
    pub fn event_from_row(row: ArchiveRow) -> (ev: CompactionEvent)
        ensures
            row_event_matches(row, ev),
            ev.header_hash@ == row.header_hash@,
            ev.vdf_info matches Some(v) && v.challenge@ == row.vdf_challenge@ && v.output@ == row.vdf_output@
                && v.number_of_iterations == (if row.vdf_iters < 0 { 0 } else { row.vdf_iters as u64 }),
            ev.respond_compact_vdf@ == row.respond_compact_vdf@,
            ev.event_id == (if row.event_id < 0 { 0 } else { row.event_id as u64 }),
            ev.field_vdf == row.field_vdf as i32,
    {
        let event_id = clamp_non_negative(row.event_id);
        let ts = clamp_non_negative(row.ts);
        let height = clamp_non_negative(row.height) as u32;
        let field_vdf = row.field_vdf as i32;
        let iters = clamp_non_negative(row.vdf_iters);
        CompactionEvent {
            event_id,
            ts,
            height,
            header_hash: row.header_hash,
            field_vdf,
            vdf_info: Some(
                VdfInfo {
                    challenge: row.vdf_challenge,
                    number_of_iterations: iters,
                    output: row.vdf_output,
                },
            ),
            respond_compact_vdf: row.respond_compact_vdf,
        }
    }

    /// The answer to a read: log bounds (negative read as zero) and the rows' events, in order.
    pub fn response_from_rows(first_event_id: i64, last_event_id: i64, rows: Vec<ArchiveRow>) -> (r:
        ReadCompactionEventsResponse)
        ensures
            r.first_event_id == non_negative(first_event_id),
            r.last_event_id == non_negative(last_event_id),
            r.events@.len() == rows@.len(),
            forall|i: int| 0 <= i < rows@.len() ==> row_event_matches(#[trigger] rows@[i], r.events@[i]),
            forall|i: int|
                0 <= i < rows@.len() ==> {
                    &&& (#[trigger] r.events@[i]).header_hash@ == rows@[i].header_hash@
                    &&& r.events@[i].vdf_info matches Some(v) && v.challenge@ == rows@[i].vdf_challenge@ && v.output@
                        == rows@[i].vdf_output@
                    &&& r.events@[i].respond_compact_vdf@ == rows@[i].respond_compact_vdf@
                },
    {
        let mut events: Vec<CompactionEvent> = Vec::new();
        let ghost all = rows@;
        for row in it: rows
            invariant
                all == it.seq(),
                events@.len() == it.index(),
                forall|k: int| 0 <= k < it.index() ==> row_event_matches(#[trigger] all[k], events@[k]),
        {
            let ev = ArchiveDb::event_from_row(row);
            events.push(ev);
        }
        proof {
            assert forall|i: int| 0 <= i < all.len() implies {
                &&& (#[trigger] events@[i]).header_hash@ == all[i].header_hash@
                &&& events@[i].vdf_info matches Some(v) && v.challenge@ == all[i].vdf_challenge@ && v.output@
                    == all[i].vdf_output@
                &&& events@[i].respond_compact_vdf@ == all[i].respond_compact_vdf@
            } by {
                lemma_row_event_columns(all[i], events@[i]);
            }
        }
        ReadCompactionEventsResponse {
            first_event_id: clamp_non_negative(first_event_id),
            last_event_id: clamp_non_negative(last_event_id),
            events,
        }
    }
}

/// An event read from a row carries the row's columns: its id, time and VDF
/// iteration count are the row's (negative read as zero), its height the row's
/// (negative read as zero, low 32 bits), its field number the low 32 bits of the
/// row's, and its header hash, challenge, output and response payload are the
/// row's byte columns unchanged.
pub proof fn lemma_row_event_columns(row: ArchiveRow, ev: CompactionEvent)
    requires
        row_event_matches(row, ev),
    ensures
        ev.event_id == (if row.event_id < 0 { 0 } else { row.event_id as u64 }),
        ev.ts == (if row.ts < 0 { 0 } else { row.ts as u64 }),
        ev.height == (if row.height < 0 { 0u32 } else { row.height as u32 }),
        ev.field_vdf == row.field_vdf as i32,
        ev.header_hash@ == row.header_hash@,
        ev.vdf_info matches Some(v) && v.challenge@ == row.vdf_challenge@ && v.output@ == row.vdf_output@
            && v.number_of_iterations == (if row.vdf_iters < 0 { 0 } else { row.vdf_iters as u64 }),
        ev.respond_compact_vdf@ == row.respond_compact_vdf@,
{
    let h = row.height;
    if h >= 0 {
        assert((h as u64) as u32 == h as u32) by (bit_vector)
            requires
                h >= 0,
        ;
    }
}

} // verus!
