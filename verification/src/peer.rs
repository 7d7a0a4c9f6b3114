//! The decisions of a peer session: the handshake it sends and the one it accepts,
//! what an inbound message calls for, and the bookkeeping around outbound
//! announcements. The session's socket I/O lives with the caller.

use vstd::prelude::*;
use vstd::string::StringExecFns;

use std::sync::Arc;

use chia_protocol::{Handshake, NodeType, RequestPeers, RespondPeers};
use chia_traits::Streamable;

use crate::messages::{
    frame_message, parse_compaction_key_from_announcement, announcement_key, request_key,
    CompactionKey, FramedMessage, MessageError, MessageType, NodeKind,
};
use crate::metrics::{wrap_add_u64, Counter, Timer};
use crate::pending::{cleanup_result, pending_has, pending_index, pending_put, pending_remove, PendingAnnouncements, MAX_PENDING_ANNOUNCEMENTS};
use crate::strings::str_bytes;
use crate::wire::{be_u16, be_u32, message_bytes, sized_bytes};

verus! {

/// A message queued for one peer: the framed bytes and, for injected events, the event id.
#[derive(Debug, Clone)]
pub struct OutboundMessage {
    pub bytes: Arc<Vec<u8>>,
    pub event_id: Option<u64>,
}

/// One connection to a full node.
pub struct PeerSession;

/// Why a peer's handshake is not accepted.
#[derive(Debug, Clone, PartialEq, Eq)]
pub enum HandshakeError {
    /// The first message was not a handshake.
    NotHandshake,
    /// The handshake payload could not be read.
    Malformed,
    /// The peer is on another network (its network id).
    NetworkMismatch(String),
    /// The peer is not a full node.
    NotFullNode,
}

/// What an inbound message calls for.
#[derive(Debug)]
pub enum InboundAction {
    /// Report how many peers the remote knows.
    PeerListReceived { peer_count: usize },
    /// Send these bytes back.
    Reply { bytes: Vec<u8> },
    /// Serve a compact-proof request: the request payload, its id, and its key.
    ServeProof { request: Vec<u8>, id: Option<u16>, key: CompactionKey },
    /// Nothing to do.
    Ignore,
}

/// What a session does after trying to write an outbound message.
#[derive(Debug, Clone, Copy, PartialEq, Eq, Structural)]
pub enum WriteOutcome {
    /// The write went through: record it, and report the injected event it carried (if any) as sent.
    Sent { announcement_sent: Option<u64> },
    /// The write failed: report the peer disconnected and end the session.
    EndSession,
}

/// What a handshake payload decodes to: the network id and the node type number.
pub uninterp spec fn handshake_summary(data: Seq<u8>) -> Option<(Seq<char>, u8)>;

/// The number of peers a `RespondPeers` payload lists.
pub uninterp spec fn respond_peers_len(data: Seq<u8>) -> Option<nat>;

/// Encoding of a string: its UTF-8 bytes with a `u32` length prefix.
pub open spec fn string_bytes(s: Seq<char>) -> Seq<u8> {
    sized_bytes(str_bytes(s))
}

/// Encoding of the capability entries, in order.
pub open spec fn capability_entries(caps: Seq<(u16, Seq<char>)>) -> Seq<u8>
    decreases caps.len(),
{
    if caps.len() == 0 {
        Seq::empty()
    } else {
        be_u16(caps[0].0) + string_bytes(caps[0].1) + capability_entries(caps.drop_first())
    }
}

/// Every string fits a `u32` length prefix.
pub open spec fn capabilities_fit(caps: Seq<(u16, Seq<char>)>) -> bool {
    caps.len() <= u32::MAX && forall|i: int| 0 <= i < caps.len() ==> str_bytes(#[trigger] caps[i].1).len() <= u32::MAX
}

/// The views of capability entries.
pub open spec fn caps_views(caps: Seq<(u16, String)>) -> Seq<(u16, Seq<char>)> {
    caps.map_values(|c: (u16, String)| (c.0, c.1@))
}

/// Encoding of a `Handshake`.
pub open spec fn handshake_bytes(
    network_id: Seq<char>,
    protocol_version: Seq<char>,
    software_version: Seq<char>,
    server_port: u16,
    node_type: u8,
    caps: Seq<(u16, Seq<char>)>,
) -> Seq<u8> {
    string_bytes(network_id) + string_bytes(protocol_version) + string_bytes(software_version) + be_u16(server_port)
        + seq![node_type] + be_u32(caps.len() as u32) + capability_entries(caps)
}

/// Every field of a handshake fits its length prefix.
pub open spec fn handshake_fits(network_id: Seq<char>, protocol_version: Seq<char>, software_version: Seq<char>, caps: Seq<(u16, Seq<char>)>) -> bool {
    str_bytes(network_id).len() <= u32::MAX && str_bytes(protocol_version).len() <= u32::MAX && str_bytes(
        software_version,
    ).len() <= u32::MAX && capabilities_fit(caps)
}

/// `Streamable::to_bytes` of a `Handshake`: the strings as length-prefixed UTF-8,
/// port, node type, then the counted capability list; it fails only when a length
/// does not fit its `u32` prefix.
#[verifier::external_body]
fn handshake_to_bytes(network_id: &str, protocol_version: &str, software_version: &str, server_port: u16, node_type: NodeKind, capabilities: &Vec<(u16, String)>) -> (r: Result<Vec<u8>, chia_traits::Error>)
    ensures
        r is Ok <==> handshake_fits(network_id@, protocol_version@, software_version@, caps_views(capabilities@)),
        r matches Ok(v) ==> v@ == handshake_bytes(network_id@, protocol_version@, software_version@, server_port, node_type.spec_code(), caps_views(capabilities@)),
{
    let node_type = match node_type {
        NodeKind::FullNode => NodeType::FullNode,
        NodeKind::Harvester => NodeType::Harvester,
        NodeKind::Farmer => NodeType::Farmer,
        NodeKind::Timelord => NodeType::Timelord,
        NodeKind::Introducer => NodeType::Introducer,
        NodeKind::Wallet => NodeType::Wallet,
        NodeKind::DataLayer => NodeType::DataLayer,
    };
    let h = Handshake::new(network_id.to_string(), protocol_version.to_string(), software_version.to_string(), server_port, node_type, capabilities.clone());
    h.to_bytes()
}

/// Network id and node type number of a peer's handshake.
#[derive(Debug)]
pub struct RemoteHandshake {
    pub network_id: String,
    pub node_type: u8,
}

/// `Handshake::from_bytes`, keeping the network id and the node type number;
/// which payloads it accepts (UTF-8 strings, known node types, exact length) is
/// left to the name [`handshake_summary`].
#[verifier::external_body]
fn handshake_from_bytes(data: &[u8]) -> (r: Result<RemoteHandshake, chia_traits::Error>)
    ensures
        r is Ok <==> handshake_summary(data@) is Some,
        r matches Ok(h) ==> handshake_summary(data@) == Some((h.network_id@, h.node_type)),
{
    let h = Handshake::from_bytes(data)?;
    Ok(RemoteHandshake { network_id: h.network_id, node_type: h.node_type as u8 })
}

/// `RespondPeers::from_bytes`, keeping the number of listed peers; which payloads
/// it accepts is left to the name [`respond_peers_len`].
#[verifier::external_body]
fn respond_peers_from_bytes(data: &[u8]) -> (r: Result<usize, chia_traits::Error>)
    ensures
        r is Ok <==> respond_peers_len(data@) is Some,
        r matches Ok(n) ==> respond_peers_len(data@) == Some(n as nat),
{
    Ok(RespondPeers::from_bytes(data)?.peer_list.len())
}

/// `Streamable::to_bytes` of an empty `RespondPeers`: a zero count.
#[verifier::external_body]
fn empty_respond_peers_to_bytes() -> (r: Result<Vec<u8>, chia_traits::Error>)
    ensures
        r is Ok,
        r matches Ok(v) ==> v@ == be_u32(0),
{
    RespondPeers::new(Vec::new()).to_bytes()
}

/// `Streamable::to_bytes` of `RequestPeers`, which has no fields: no bytes.
#[verifier::external_body]
fn request_peers_to_bytes() -> (r: Result<Vec<u8>, chia_traits::Error>)
    ensures
        r is Ok,
        r matches Ok(v) ==> v@ == Seq::<u8>::empty(),
{
    RequestPeers::new().to_bytes()
}


/// The protocol version announced when the configuration names none.
pub open spec fn default_protocol_version_view() -> Seq<char> {
    "0.0.36"@
}

/// The capabilities announced in the handshake: (1,"1"), (2,"1"), (3,"1"), (5,"1").
pub open spec fn handshake_capabilities_view() -> Seq<(u16, Seq<char>)> {
    seq![(1u16, "1"@), (2u16, "1"@), (3u16, "1"@), (5u16, "1"@)]
}

/// The handshake payload a session sends (server port 0, full node).
pub open spec fn local_handshake_body(network_id: Seq<char>, protocol_version: Option<Seq<char>>, software_version: Seq<char>) -> Seq<u8> {
    handshake_bytes(
        network_id,
        match protocol_version {
            Some(p) => p,
            None => default_protocol_version_view(),
        },
        software_version,
        0,
        1,
        handshake_capabilities_view(),
    )
}

/// The protocol version announced when the configuration names none.
pub fn default_protocol_version() -> (r: String)
    ensures
        r@ == default_protocol_version_view(),
{
    String::from_str("0.0.36")
}

/// The capabilities announced in the handshake.
pub fn handshake_capabilities() -> (r: Vec<(u16, String)>)
    ensures
        caps_views(r@) == handshake_capabilities_view(),
        caps_views(r@) == seq![(1u16, seq!['1']), (2u16, seq!['1']), (3u16, seq!['1']), (5u16, seq!['1'])],
{
    proof { lemma_handshake_capabilities(); }
    let mut r: Vec<(u16, String)> = Vec::new();
    r.push((1u16, String::from_str("1")));
    r.push((2u16, String::from_str("1")));
    r.push((3u16, String::from_str("1")));
    r.push((5u16, String::from_str("1")));
    assert(caps_views(r@) =~= handshake_capabilities_view());
    r
}

impl PeerSession {
    /// The framed handshake a session opens with: our network id, the configured
    /// protocol version (or the default), our software version, port 0, full node,
    /// and the fixed capability list.
    pub fn handshake_message(network_id: &String, protocol_version: &Option<String>, software_version: &String) -> (r: Result<Vec<u8>, MessageError>)
        ensures
            ({
                let pv = match protocol_version {
                    Some(p) => p@,
                    None => default_protocol_version_view(),
                };
                let body = local_handshake_body(network_id@, match protocol_version { Some(p) => Some(p@), None => None }, software_version@);
                if handshake_fits(network_id@, pv, software_version@, handshake_capabilities_view()) && body.len() <= u32::MAX {
                    r matches Ok(v) && v@ == message_bytes(1, None, body)
                } else {
                    r is Err
                }
            }),
    {
        let pv = match protocol_version {
            Some(p) => p.clone(),
            None => default_protocol_version(),
        };
        let caps = handshake_capabilities();
        let body = match handshake_to_bytes(network_id.as_str(), pv.as_str(), software_version.as_str(), 0, NodeKind::FullNode, &caps) {
            Ok(b) => b,
            Err(_) => {
                return Err(MessageError::PayloadTooLarge);
            },
        };
        frame_message(MessageType::Handshake, None, body.as_slice())
    }

    /// Checks the first message of a peer: it must be a handshake on our network
    /// from a full node.
    pub fn check_remote_handshake(local_network_id: &String, msg: &FramedMessage) -> (r: Result<(), HandshakeError>)
        ensures
            msg.msg_type != 1 ==> r == Err::<(), HandshakeError>(HandshakeError::NotHandshake),
            msg.msg_type == 1 ==> match handshake_summary(msg.data@) {
                None => r == Err::<(), HandshakeError>(HandshakeError::Malformed),
                Some((nid, node_type)) => if nid != local_network_id@ {
                    r matches Err(HandshakeError::NetworkMismatch(s)) && s@ == nid
                } else if node_type != 1 {
                    r == Err::<(), HandshakeError>(HandshakeError::NotFullNode)
                } else {
                    r is Ok
                },
            },
    {
        if msg.msg_type != 1 {
            return Err(HandshakeError::NotHandshake);
        }
        let h = match handshake_from_bytes(msg.data.as_slice()) {
            Ok(h) => h,
            Err(_) => {
                return Err(HandshakeError::Malformed);
            },
        };
        if h.network_id != *local_network_id {
            return Err(HandshakeError::NetworkMismatch(h.network_id));
        }
        if h.node_type != 1 {
            return Err(HandshakeError::NotFullNode);
        }
        Ok(())
    }

    /// The framed `request_peers` message (empty payload).
    pub fn request_peers_message() -> (r: Result<Vec<u8>, MessageError>)
        ensures
            r matches Ok(v) && v@ == message_bytes(43, None, Seq::<u8>::empty()),
    {
        let body = match request_peers_to_bytes() {
            Ok(b) => b,
            Err(_) => {
                return Err(MessageError::PayloadTooLarge);
            },
        };
        frame_message(MessageType::RequestPeers, None, body.as_slice())
    }

    /// What an inbound message calls for: a peer list is counted; a peer request
    /// is answered with an empty list under the same id; a compact-proof request
    /// is to be served (its key derived); anything else is ignored.
    pub fn inbound_action(msg: FramedMessage) -> (r: Result<InboundAction, MessageError>)
        ensures
            msg.msg_type == 44 ==> match respond_peers_len(msg.data@) {
                Some(n) => r matches Ok(InboundAction::PeerListReceived { peer_count }) && peer_count == n,
                None => r == Err::<InboundAction, MessageError>(MessageError::MalformedRespondPeers),
            },
            msg.msg_type == 43 ==> (r matches Ok(InboundAction::Reply { bytes }) && bytes@ == message_bytes(44, msg.id, be_u32(0))),
            msg.msg_type == 40 ==> match request_key(msg.data@) {
                Ok(kv) => r matches Ok(InboundAction::ServeProof { request, id, key }) && request@ == msg.data@ && id == msg.id && key@ == kv,
                Err(e) => r == Err::<InboundAction, MessageError>(e),
            },
            msg.msg_type != 44 && msg.msg_type != 43 && msg.msg_type != 40 ==> (r matches Ok(InboundAction::Ignore)),
    {
        if msg.msg_type == 44 {
            match respond_peers_from_bytes(msg.data.as_slice()) {
                Ok(n) => Ok(InboundAction::PeerListReceived { peer_count: n }),
                Err(_) => Err(MessageError::MalformedRespondPeers),
            }
        } else if msg.msg_type == 43 {
            let body = match empty_respond_peers_to_bytes() {
                Ok(b) => b,
                Err(_) => {
                    return Err(MessageError::PayloadTooLarge);
                },
            };
            let bytes = frame_message(MessageType::RespondPeers, msg.id, body.as_slice())?;
            Ok(InboundAction::Reply { bytes })
        } else if msg.msg_type == 40 {
            let key = CompactionKey::from_request(msg.data.as_slice())?;
            Ok(InboundAction::ServeProof { request: msg.data, id: msg.id, key })
        } else {
            Ok(InboundAction::Ignore)
        }
    }

    /// The framed `respond_compact_vdf` answer to a request with id `id`.
    pub fn respond_proof_message(id: Option<u16>, respond_compact_vdf: &[u8]) -> (r: Result<Vec<u8>, MessageError>)
        ensures
            respond_compact_vdf@.len() <= u32::MAX ==> (r matches Ok(v) && v@ == message_bytes(41, id, respond_compact_vdf@)),
            respond_compact_vdf@.len() > u32::MAX ==> r is Err,
    {
        frame_message(MessageType::RespondCompactVdf, id, respond_compact_vdf)
    }

    /// The decision after writing an outbound message that carried `event_id`:
    /// an event is reported as sent only after its write succeeded; a failed
    /// write ends the session.
    pub fn after_write(write_ok: bool, event_id: Option<u64>) -> (r: WriteOutcome)
        ensures
            r == (if write_ok { WriteOutcome::Sent { announcement_sent: event_id } } else { WriteOutcome::EndSession }),
    {
        if write_ok {
            WriteOutcome::Sent { announcement_sent: event_id }
        } else {
            WriteOutcome::EndSession
        }
    }

    /// Bookkeeping after bytes were written to the peer at `now_ns`: an outbound
    /// announcement is remembered under its key, then old entries are cleaned up.
    /// Returns the reading of the bytes (a failure only matters for diagnostics).
    pub fn on_outbound_sent(pending: &mut PendingAnnouncements, bytes: &[u8], now_ns: u64) -> (r: Result<(), MessageError>)
        requires
            old(pending).wf(),
        ensures
            final(pending).wf(),
            final(pending).map().len() <= MAX_PENDING_ANNOUNCEMENTS,
            final(pending).spec_next_seq() == (if announcement_key(bytes@) is Ok && announcement_key(bytes@)->Ok_0 is Some {
                old(pending).spec_next_seq().wrapping_add(1)
            } else {
                old(pending).spec_next_seq()
            }),
            match announcement_key(bytes@) {
                Ok(Some(kv)) => r is Ok && (final(pending).map(), final(pending).age_order()) == cleanup_result(
                    pending_put(old(pending).map(), kv, now_ns, old(pending).spec_next_seq()),
                    old(pending).age_order().push((kv, old(pending).spec_next_seq())),
                    now_ns,
                ),
                Ok(None) => r is Ok && (final(pending).map(), final(pending).age_order()) == cleanup_result(old(pending).map(), old(pending).age_order(), now_ns),
                Err(e) => r == Err::<(), MessageError>(e) && (final(pending).map(), final(pending).age_order()) == cleanup_result(old(pending).map(), old(pending).age_order(), now_ns),
            },
    {
        let parsed = parse_compaction_key_from_announcement(bytes);
        let r = match parsed {
            Ok(Some(key)) => {
                pending.remember(key, now_ns);
                Ok(())
            },
            Ok(None) => Ok(()),
            Err(e) => Err(e),
        };
        pending.cleanup(now_ns);
        r
    }

    /// Bookkeeping for an inbound request with key `key` at `now_ns`: old entries
    /// are cleaned up, then the announcement is taken out; a match is counted and
    /// its announcement-to-request delay recorded, otherwise a miss is counted.
    pub fn match_request(pending: &mut PendingAnnouncements, key: &CompactionKey, now_ns: u64, match_total: &mut Counter, miss_total: &mut Counter, delay_ms: &mut Timer) -> (r: Option<u64>)
        requires
            old(pending).wf(),
        ensures
            final(pending).wf(),
            final(pending).spec_next_seq() == old(pending).spec_next_seq(),
            ({
                let (m1, o1) = cleanup_result(old(pending).map(), old(pending).age_order(), now_ns);
                &&& final(pending).map() == pending_remove(m1, key@)
                &&& final(pending).age_order() == o1
                &&& match r {
                    Some(t) => pending_has(m1, key@) && t == m1[pending_index(m1, key@)].1
                        && final(match_total)@ == wrap_add_u64(old(match_total)@, 1)
                        && final(miss_total)@ == old(miss_total)@
                        && Timer::recorded_once(*old(delay_ms), *final(delay_ms), ((if now_ns >= t { now_ns - t } else { 0 }) / 1_000_000) as u64),
                    None => !pending_has(m1, key@) && final(match_total)@ == old(match_total)@
                        && final(miss_total)@ == wrap_add_u64(old(miss_total)@, 1)
                        && *final(delay_ms) == *old(delay_ms),
                }
            }),
    {
        pending.cleanup(now_ns);
        let r = pending.take(key);
        match r {
            Some(sent_at) => {
                match_total.inc();
                let waited_ns = if now_ns >= sent_at { now_ns - sent_at } else { 0 };
                delay_ms.record((waited_ns / 1_000_000) as u128);
            },
            None => {
                miss_total.inc();
            },
        }
        r
    }

    /// The pause before reconnecting: 200 ms after a clean end of session,
    /// otherwise double the previous pause, at most 10 s.
    pub fn next_backoff_ms(prev_ms: u64, session_ok: bool) -> (r: u64)
        ensures
            session_ok ==> r == 200,
            !session_ok ==> r == (if prev_ms as int * 2 > 10_000 { 10_000 } else { prev_ms as int * 2 }),
    {
        if session_ok {
            200
        } else if prev_ms > 5_000 {
            10_000
        } else {
            prev_ms * 2
        }
    }
}

/// The handshake announces exactly the capabilities 1, 2, 3 and 5, each with value "1".
pub proof fn lemma_handshake_capabilities()
    ensures
        handshake_capabilities_view() == seq![(1u16, seq!['1']), (2u16, seq!['1']), (3u16, seq!['1']), (5u16, seq!['1'])],
{
    reveal_strlit("1");
    assert("1"@ =~= seq!['1']);
    assert(handshake_capabilities_view() =~= seq![(1u16, seq!['1']), (2u16, seq!['1']), (3u16, seq!['1']), (5u16, seq!['1'])]);
}

/// Every session's handshake payload is our network id, the configured protocol
/// version (or "0.0.36"), our software version, port 0, node type 1 (full node)
/// and the capabilities 1, 2, 3 and 5 with value "1".
pub proof fn lemma_local_handshake(network_id: Seq<char>, protocol_version: Option<Seq<char>>, software_version: Seq<char>)
    ensures
        local_handshake_body(network_id, protocol_version, software_version) == handshake_bytes(
            network_id,
            match protocol_version {
                Some(p) => p,
                None => seq!['0', '.', '0', '.', '3', '6'],
            },
            software_version,
            0,
            1,
            seq![(1u16, seq!['1']), (2u16, seq!['1']), (3u16, seq!['1']), (5u16, seq!['1'])],
        ),
{
    lemma_handshake_capabilities();
    reveal_strlit("0.0.36");
    assert(default_protocol_version_view() =~= seq!['0', '.', '0', '.', '3', '6']);
}

} // verus!
