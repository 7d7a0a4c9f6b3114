//! Building and reading the peer-protocol messages that carry compact proofs.

use vstd::prelude::*;

use chia_protocol::{
    Bytes, Bytes32, ClassgroupElement, Handshake, Message, NewCompactVDF, NodeType,
    ProtocolMessageTypes, RequestCompactVDF, RequestPeers, RespondPeers, VDFInfo,
};
use chia_traits::Streamable;

use crate::archive::{CompactionEvent, FieldVdf, VdfInfo};
use crate::bytes::{bytes_eq, copy_bytes};
use crate::wire::{
    lemma_compact_vdf_body_reencodes, lemma_parse_compact_vdf_body, lemma_parse_message_bytes, lemma_u32_roundtrip,
    lemma_u64_roundtrip, be_u64, read_be_u32, read_be_u64,
    compact_vdf_body_bytes, message_bytes, parse_compact_vdf_body, parse_message, vdf_info_bytes,
    CompactVdfFieldsView,
};

verus! {

#[verifier::external_type_specification]
#[verifier::external_body]
pub struct ExStreamableError(chia_traits::Error);

/// The message types this crate sends or reacts to.
#[derive(Clone, Copy, Debug, PartialEq, Eq, Structural)]
pub enum MessageType {
    Handshake,
    RequestCompactVdf,
    RespondCompactVdf,
    NewCompactVdf,
    RequestPeers,
    RespondPeers,
}

impl MessageType {
    /// The protocol number of each type.
    pub open spec fn spec_code(self) -> u8 {
        match self {
            MessageType::Handshake => 1,
            MessageType::RequestCompactVdf => 40,
            MessageType::RespondCompactVdf => 41,
            MessageType::NewCompactVdf => 42,
            MessageType::RequestPeers => 43,
            MessageType::RespondPeers => 44,
        }
    }

    /// The protocol number of the type.
    pub fn code(&self) -> (r: u8)
        ensures
            r == self.spec_code(),
    {
        match self {
            MessageType::Handshake => 1,
            MessageType::RequestCompactVdf => 40,
            MessageType::RespondCompactVdf => 41,
            MessageType::NewCompactVdf => 42,
            MessageType::RequestPeers => 43,
            MessageType::RespondPeers => 44,
        }
    }

}

/// Kinds of node a peer can announce itself as.
#[derive(Clone, Copy, Debug, PartialEq, Eq, Structural)]
pub enum NodeKind {
    FullNode,
    Harvester,
    Farmer,
    Timelord,
    Introducer,
    Wallet,
    DataLayer,
}

impl NodeKind {
    /// The protocol number of each kind.
    pub open spec fn spec_code(self) -> u8 {
        match self {
            NodeKind::FullNode => 1,
            NodeKind::Harvester => 2,
            NodeKind::Farmer => 3,
            NodeKind::Timelord => 4,
            NodeKind::Introducer => 5,
            NodeKind::Wallet => 6,
            NodeKind::DataLayer => 7,
        }
    }
}

/// Why a message could not be built or read.
#[derive(Clone, Copy, Debug, PartialEq, Eq, Structural)]
pub enum MessageError {
    /// The event's header hash is not 32 bytes.
    HeaderHashLength,
    /// The VDF challenge is not 32 bytes.
    ChallengeLength,
    /// The VDF output is not a 100-byte classgroup element.
    ClassgroupOutput,
    /// A payload is longer than a `u32` length prefix can describe.
    PayloadTooLarge,
    /// The bytes are not one well-formed framed message.
    MalformedMessage,
    /// The payload is not a well-formed `NewCompactVDF`.
    MalformedNewCompactVdf,
    /// The payload is not a well-formed `RequestCompactVDF`.
    MalformedRequestCompactVdf,
    /// The payload is not a well-formed `Handshake`.
    MalformedHandshake,
    /// The payload is not a well-formed `RespondPeers`.
    MalformedRespondPeers,
}

/// A framed message as read off the wire: raw type number, optional id, payload.
#[derive(Debug)]
pub struct FramedMessage {
    pub msg_type: u8,
    pub id: Option<u16>,
    pub data: Vec<u8>,
}

/// The fields of a `NewCompactVDF` or `RequestCompactVDF` body.
#[derive(Debug)]
pub struct CompactVdfFields {
    pub height: u32,
    pub header_hash: Vec<u8>,
    pub field_vdf: u8,
    pub challenge: Vec<u8>,
    pub number_of_iterations: u64,
    pub output: Vec<u8>,
}

impl CompactVdfFields {
    pub open spec fn view_fields(&self) -> CompactVdfFieldsView {
        CompactVdfFieldsView {
            height: self.height,
            header_hash: self.header_hash@,
            field_vdf: self.field_vdf,
            challenge: self.challenge@,
            number_of_iterations: self.number_of_iterations,
            output: self.output@,
        }
    }
}

/// `Streamable::to_bytes` of a `NewCompactVDF` built from the given fields;
/// the encoding is the fields in order, with no length prefixes, and it cannot fail.
#[verifier::external_body]
fn new_compact_vdf_to_bytes(
    height: u32,
    header_hash: &[u8],
    field_vdf: u8,
    challenge: &[u8],
    number_of_iterations: u64,
    output: &[u8],
) -> (r: Result<Vec<u8>, chia_traits::Error>)
    requires
        header_hash@.len() == 32,
        challenge@.len() == 32,
        output@.len() == 100,
    ensures
        r is Ok,
        r matches Ok(v) ==> v@ == compact_vdf_body_bytes(
            height,
            header_hash@,
            field_vdf,
            challenge@,
            number_of_iterations,
            output@,
        ),
{
    let hh: [u8; 32] = header_hash.try_into().unwrap();
    let ch: [u8; 32] = challenge.try_into().unwrap();
    let out: [u8; 100] = output.try_into().unwrap();
    let vdf = VDFInfo::new(Bytes32::new(ch), number_of_iterations, ClassgroupElement::new(out.into()));
    NewCompactVDF::new(height, Bytes32::new(hh), field_vdf, vdf).to_bytes()
}

/// `Streamable::to_bytes` of a `VDFInfo`: challenge, iterations, output; it cannot fail.
#[verifier::external_body]
fn vdf_info_to_bytes(challenge: &[u8], number_of_iterations: u64, output: &[u8]) -> (r: Result<Vec<u8>, chia_traits::Error>)
    requires
        challenge@.len() == 32,
        output@.len() == 100,
    ensures
        r is Ok,
        r matches Ok(v) ==> v@ == vdf_info_bytes(challenge@, number_of_iterations, output@),
{
    let ch: [u8; 32] = challenge.try_into().unwrap();
    let out: [u8; 100] = output.try_into().unwrap();
    VDFInfo::new(Bytes32::new(ch), number_of_iterations, ClassgroupElement::new(out.into())).to_bytes()
}

/// `Streamable::to_bytes` of a framed `Message`; it fails only when the payload is
/// too long for its `u32` length prefix.
#[verifier::external_body]
fn message_to_bytes(msg_type: MessageType, id: Option<u16>, data: &[u8]) -> (r: Result<Vec<u8>, chia_traits::Error>)
    ensures
        r is Ok <==> data@.len() <= u32::MAX,
        r matches Ok(v) ==> v@ == message_bytes(msg_type.spec_code(), id, data@),
{
    let t = match msg_type {
        MessageType::Handshake => ProtocolMessageTypes::Handshake,
        MessageType::RequestCompactVdf => ProtocolMessageTypes::RequestCompactVDF,
        MessageType::RespondCompactVdf => ProtocolMessageTypes::RespondCompactVDF,
        MessageType::NewCompactVdf => ProtocolMessageTypes::NewCompactVDF,
        MessageType::RequestPeers => ProtocolMessageTypes::RequestPeers,
        MessageType::RespondPeers => ProtocolMessageTypes::RespondPeers,
    };
    Message { msg_type: t, id, data: Bytes::new(data.to_vec()) }.to_bytes()
}

/// `Message::from_bytes`: succeeds exactly on one well-formed framed message
/// (known type number, option tag, length-prefixed payload, nothing after it).
#[verifier::external_body]
fn message_from_bytes(bytes: &[u8]) -> (r: Result<FramedMessage, chia_traits::Error>)
    ensures
        r is Ok <==> parse_message(bytes@) is Some,
        r matches Ok(m) ==> parse_message(bytes@) == Some((m.msg_type, m.id, m.data@)),
{
    let m = Message::from_bytes(bytes)?;
    Ok(FramedMessage { msg_type: m.msg_type as u8, id: m.id, data: m.data.into_inner() })
}

/// `NewCompactVDF::from_bytes`: succeeds exactly on a 177-byte body.
#[verifier::external_body]
fn new_compact_vdf_from_bytes(data: &[u8]) -> (r: Result<CompactVdfFields, chia_traits::Error>)
    ensures
        r is Ok <==> parse_compact_vdf_body(data@) is Some,
        r matches Ok(f) ==> parse_compact_vdf_body(data@) == Some(f.view_fields()),
{
    let m = NewCompactVDF::from_bytes(data)?;
    Ok(CompactVdfFields {
        height: m.height,
        header_hash: m.header_hash.to_vec(),
        field_vdf: m.field_vdf,
        challenge: m.vdf_info.challenge.to_vec(),
        number_of_iterations: m.vdf_info.number_of_iterations,
        output: m.vdf_info.output.data.to_vec(),
    })
}

/// `RequestCompactVDF::from_bytes`: succeeds exactly on a 177-byte body.
#[verifier::external_body]
fn request_compact_vdf_from_bytes(data: &[u8]) -> (r: Result<CompactVdfFields, chia_traits::Error>)
    ensures
        r is Ok <==> parse_compact_vdf_body(data@) is Some,
        r matches Ok(f) ==> parse_compact_vdf_body(data@) == Some(f.view_fields()),
{
    let m = RequestCompactVDF::from_bytes(data)?;
    Ok(CompactVdfFields {
        height: m.height,
        header_hash: m.header_hash.to_vec(),
        field_vdf: m.field_vdf,
        challenge: m.vdf_info.challenge.to_vec(),
        number_of_iterations: m.vdf_info.number_of_iterations,
        output: m.vdf_info.output.data.to_vec(),
    })
}

} // verus!

verus! {

/// The abstract identity of a compaction: height, header hash, field byte, encoded VDF info.
pub struct CompactionKeyView {
    pub height: u32,
    pub header_hash: Seq<u8>,
    pub field_vdf: u8,
    pub vdf_info: Seq<u8>,
}

/// Identifies one compaction, as announced and as requested.
#[derive(Debug)]
pub struct CompactionKey {
    pub height: u32,
    pub header_hash: Vec<u8>,
    pub field_vdf: u8,
    pub vdf_info_bytes: Vec<u8>,
}

impl View for CompactionKey {
    type V = CompactionKeyView;

    open spec fn view(&self) -> CompactionKeyView {
        CompactionKeyView {
            height: self.height,
            header_hash: self.header_hash@,
            field_vdf: self.field_vdf,
            vdf_info: self.vdf_info_bytes@,
        }
    }
}

/// The key of a decoded compact-VDF body.
pub open spec fn key_of_fields(f: CompactVdfFieldsView) -> CompactionKeyView {
    CompactionKeyView {
        height: f.height,
        header_hash: f.header_hash,
        field_vdf: f.field_vdf,
        vdf_info: vdf_info_bytes(f.challenge, f.number_of_iterations, f.output),
    }
}

/// What [`CompactionKey::from_request`] makes of a `RequestCompactVDF` payload.
pub open spec fn request_key(b: Seq<u8>) -> Result<CompactionKeyView, MessageError> {
    match parse_compact_vdf_body(b) {
        Some(f) => Ok(key_of_fields(f)),
        None => Err(MessageError::MalformedRequestCompactVdf),
    }
}

/// What [`parse_compaction_key_from_announcement`] makes of framed bytes:
/// the key of a `NewCompactVDF`, nothing for other message types.
pub open spec fn announcement_key(b: Seq<u8>) -> Result<Option<CompactionKeyView>, MessageError> {
    match parse_message(b) {
        None => Err(MessageError::MalformedMessage),
        Some((code, _id, d)) => if code != 42 {
            Ok(None)
        } else {
            match parse_compact_vdf_body(d) {
                Some(f) => Ok(Some(key_of_fields(f))),
                None => Err(MessageError::MalformedNewCompactVdf),
            }
        },
    }
}

impl Clone for CompactionKey {
    fn clone(&self) -> (r: Self)
        ensures
            r@ == self@,
    {
        CompactionKey {
            height: self.height,
            header_hash: copy_bytes(&self.header_hash),
            field_vdf: self.field_vdf,
            vdf_info_bytes: copy_bytes(&self.vdf_info_bytes),
        }
    }
}

fn key_from_fields(f: CompactVdfFields) -> (r: Result<CompactionKey, MessageError>)
    requires
        f.challenge@.len() == 32,
        f.output@.len() == 100,
    ensures
        r matches Ok(k) && k@ == key_of_fields(f.view_fields()),
{
    match vdf_info_to_bytes(f.challenge.as_slice(), f.number_of_iterations, f.output.as_slice()) {
        Ok(vdf_info_bytes) => Ok(
            CompactionKey {
                height: f.height,
                header_hash: f.header_hash,
                field_vdf: f.field_vdf,
                vdf_info_bytes,
            },
        ),
        Err(_) => Err(MessageError::MalformedRequestCompactVdf),
    }
}

impl CompactionKey {
    /// The key of a `RequestCompactVDF` payload.
    pub fn from_request(request: &[u8]) -> (r: Result<CompactionKey, MessageError>)
        ensures
            match request_key(request@) {
                Ok(kv) => r matches Ok(k) && k@ == kv,
                Err(e) => r == Err::<CompactionKey, MessageError>(e),
            },
    {
        match request_compact_vdf_from_bytes(request) {
            Ok(f) => key_from_fields(f),
            Err(_) => Err(MessageError::MalformedRequestCompactVdf),
        }
    }

    /// Whether two keys name the same compaction.
    pub fn same_as(&self, other: &CompactionKey) -> (r: bool)
        ensures
            r == (self@ == other@),
    {
        self.height == other.height && self.field_vdf == other.field_vdf && bytes_eq(
            self.header_hash.as_slice(),
            other.header_hash.as_slice(),
        ) && bytes_eq(self.vdf_info_bytes.as_slice(), other.vdf_info_bytes.as_slice())
    }
}

/// The field byte an announcement carries for the event's field number: its low 8 bits.
pub open spec fn field_vdf_byte(field_vdf: i32) -> u8 {
    field_vdf as u8
}

/// The `NewCompactVDF` payload announcing `ev` with VDF `vdf`.
pub open spec fn announcement_body(ev: CompactionEvent, vdf: VdfInfo) -> Seq<u8> {
    compact_vdf_body_bytes(
        ev.height,
        ev.header_hash@,
        field_vdf_byte(ev.field_vdf),
        vdf.challenge@,
        vdf.number_of_iterations,
        vdf.output@,
    )
}

/// The key a peer's request for the announced compaction carries.
pub open spec fn event_key(ev: CompactionEvent, vdf: VdfInfo) -> CompactionKeyView {
    CompactionKeyView {
        height: ev.height,
        header_hash: ev.header_hash@,
        field_vdf: field_vdf_byte(ev.field_vdf),
        vdf_info: vdf_info_bytes(vdf.challenge@, vdf.number_of_iterations, vdf.output@),
    }
}

/// What [`build_new_compact_vdf_message`] returns: the first failing size check, or the framed announcement.
pub open spec fn announcement_result(ev: CompactionEvent, vdf: VdfInfo) -> Result<Seq<u8>, MessageError> {
    if ev.header_hash@.len() != 32 {
        Err(MessageError::HeaderHashLength)
    } else if vdf.challenge@.len() != 32 {
        Err(MessageError::ChallengeLength)
    } else if vdf.output@.len() != 100 {
        Err(MessageError::ClassgroupOutput)
    } else {
        Ok(message_bytes(42, None, announcement_body(ev, vdf)))
    }
}

/// Frames `data` as a message of type `msg_type` with request id `id`.
pub fn frame_message(msg_type: MessageType, id: Option<u16>, data: &[u8]) -> (r: Result<Vec<u8>, MessageError>)
    ensures
        data@.len() <= u32::MAX ==> (r matches Ok(v) && v@ == message_bytes(msg_type.spec_code(), id, data@)),
        data@.len() > u32::MAX ==> r == Err::<Vec<u8>, MessageError>(MessageError::PayloadTooLarge),
{
    match message_to_bytes(msg_type, id, data) {
        Ok(v) => Ok(v),
        Err(_) => Err(MessageError::PayloadTooLarge),
    }
}

/// The framed `new_compact_vdf` announcement of `ev` (with VDF `vdf`).
pub fn build_new_compact_vdf_message(ev: &CompactionEvent, vdf: &VdfInfo) -> (r: Result<Vec<u8>, MessageError>)
    ensures
        r is Ok <==> (ev.header_hash@.len() == 32 && vdf.challenge@.len() == 32 && vdf.output@.len() == 100),
        r matches Ok(v) ==> announcement_layout(v@, *ev, *vdf),
        match announcement_result(*ev, *vdf) {
            Ok(b) => r matches Ok(v) && v@ == b,
            Err(e) => r == Err::<Vec<u8>, MessageError>(e),
        },
{
    if ev.header_hash.len() != 32 {
        return Err(MessageError::HeaderHashLength);
    }
    if vdf.challenge.len() != 32 {
        return Err(MessageError::ChallengeLength);
    }
    if vdf.output.len() != 100 {
        return Err(MessageError::ClassgroupOutput);
    }
    let field_vdf: u8 = match FieldVdf::try_from(ev.field_vdf) {
        Ok(f) => f.code() as u8,
        Err(_) => ev.field_vdf as u8,
    };
    let body = match new_compact_vdf_to_bytes(
        ev.height,
        ev.header_hash.as_slice(),
        field_vdf,
        vdf.challenge.as_slice(),
        vdf.number_of_iterations,
        vdf.output.as_slice(),
    ) {
        Ok(b) => b,
        Err(_) => {
            return Err(MessageError::MalformedNewCompactVdf);
        },
    };
    proof { lemma_announcement_carries_event(*ev, *vdf); }
    frame_message(MessageType::NewCompactVdf, None, body.as_slice())
}

/// The framed `respond_compact_vdf` message carrying the stored response payload.
pub fn build_respond_compact_vdf_message(respond_compact_vdf: &[u8]) -> (r: Result<Vec<u8>, MessageError>)
    ensures
        respond_compact_vdf@.len() <= u32::MAX ==> (r matches Ok(v) && v@ == message_bytes(41, None, respond_compact_vdf@)),
        respond_compact_vdf@.len() > u32::MAX ==> r == Err::<Vec<u8>, MessageError>(MessageError::PayloadTooLarge),
{
    frame_message(MessageType::RespondCompactVdf, None, respond_compact_vdf)
}

/// Reads framed bytes.
pub fn parse_framed_message(bytes: &[u8]) -> (r: Result<FramedMessage, MessageError>)
    ensures
        match parse_message(bytes@) {
            Some((code, id, d)) => r matches Ok(m) && m.msg_type == code && m.id == id && m.data@ == d,
            None => r matches Err(e) && e == MessageError::MalformedMessage,
        },
{
    match message_from_bytes(bytes) {
        Ok(m) => Ok(m),
        Err(_) => Err(MessageError::MalformedMessage),
    }
}

/// The key of an outbound `new_compact_vdf` announcement; nothing for other message types.
pub fn parse_compaction_key_from_announcement(bytes: &[u8]) -> (r: Result<Option<CompactionKey>, MessageError>)
    ensures
        match announcement_key(bytes@) {
            Ok(None) => r matches Ok(None),
            Ok(Some(kv)) => r matches Ok(Some(k)) && k@ == kv,
            Err(e) => r matches Err(e2) && e2 == e,
        },
{
    let msg = parse_framed_message(bytes)?;
    if msg.msg_type != 42 {
        return Ok(None);
    }
    match new_compact_vdf_from_bytes(msg.data.as_slice()) {
        Ok(f) => match key_from_fields(f) {
            Ok(k) => Ok(Some(k)),
            Err(e) => Err(e),
        },
        Err(_) => Err(MessageError::MalformedNewCompactVdf),
    }
}

/// An announcement built for an event reads back as that event's key, and a
/// request whose payload repeats the announced fields carries the same key:
/// this is what lets an inbound request be matched with the announcement that caused it.
pub proof fn lemma_request_matches_announcement(ev: CompactionEvent, vdf: VdfInfo)
    requires
        ev.header_hash@.len() == 32,
        vdf.challenge@.len() == 32,
        vdf.output@.len() == 100,
    ensures
        announcement_result(ev, vdf) == Ok::<Seq<u8>, MessageError>(message_bytes(42, None, announcement_body(ev, vdf))),
        announcement_key(message_bytes(42, None, announcement_body(ev, vdf))) == Ok::<Option<CompactionKeyView>, MessageError>(Some(event_key(ev, vdf))),
        request_key(announcement_body(ev, vdf)) == Ok::<CompactionKeyView, MessageError>(event_key(ev, vdf)),
{
    let body = announcement_body(ev, vdf);
    lemma_parse_compact_vdf_body(
        ev.height,
        ev.header_hash@,
        field_vdf_byte(ev.field_vdf),
        vdf.challenge@,
        vdf.number_of_iterations,
        vdf.output@,
    );
    assert(body.len() == 177);
    lemma_parse_message_bytes(42, None, body);
}

/// Two requests with the same key are the same bytes: the key keeps every field
/// of a `RequestCompactVDF`.
pub proof fn lemma_request_key_injective(q1: Seq<u8>, q2: Seq<u8>)
    requires
        request_key(q1) is Ok,
        request_key(q1) == request_key(q2),
    ensures
        q1 == q2,
{
    let f1 = parse_compact_vdf_body(q1).unwrap();
    let f2 = parse_compact_vdf_body(q2).unwrap();
    assert(f1.challenge == f2.challenge && f1.output == f2.output && f1.number_of_iterations == f2.number_of_iterations)
        by {
        let v1 = vdf_info_bytes(f1.challenge, f1.number_of_iterations, f1.output);
        let v2 = vdf_info_bytes(f2.challenge, f2.number_of_iterations, f2.output);
        assert(key_of_fields(f1) == key_of_fields(f2));
        assert(v1 == v2);
        assert(f1.challenge =~= v1.subrange(0, 32));
        assert(f2.challenge =~= v2.subrange(0, 32));
        assert(f1.output =~= v1.subrange(40, 140));
        assert(f2.output =~= v2.subrange(40, 140));
        assert(be_u64(f1.number_of_iterations) =~= v1.subrange(32, 40));
        assert(be_u64(f2.number_of_iterations) =~= v2.subrange(32, 40));
        lemma_u64_roundtrip(f1.number_of_iterations);
        lemma_u64_roundtrip(f2.number_of_iterations);
    }
    assert(f1.height == f2.height && f1.header_hash == f2.header_hash && f1.field_vdf == f2.field_vdf) by {
        assert(key_of_fields(f1) == key_of_fields(f2));
    }
    lemma_compact_vdf_body_reencodes(q1);
    lemma_compact_vdf_body_reencodes(q2);
}

/// The framed announcement `b` carries the event's fields where the protocol
/// puts them: message type 42 with no request id, then the 177-byte payload
/// (height, header hash, the low byte of the event's field number, challenge,
/// iteration count, output).
pub open spec fn announcement_layout(b: Seq<u8>, ev: CompactionEvent, vdf: VdfInfo) -> bool {
    &&& b.len() == 183
    &&& b[0] == 42u8
    &&& b[1] == 0u8
    &&& read_be_u32(b.subrange(2, 6)) == 177
    &&& read_be_u32(b.subrange(6, 10)) == ev.height
    &&& b.subrange(10, 42) == ev.header_hash@
    &&& b[42] == ev.field_vdf as u8
    &&& b.subrange(43, 75) == vdf.challenge@
    &&& read_be_u64(b.subrange(75, 83)) == vdf.number_of_iterations
    &&& b.subrange(83, 183) == vdf.output@
}

/// An announcement is built exactly for events with a 32-byte header hash,
/// 32-byte challenge and 100-byte output, and then carries the event's height,
/// header hash, field number (its low byte), challenge, iterations and output.
pub proof fn lemma_announcement_carries_event(ev: CompactionEvent, vdf: VdfInfo)
    ensures
        announcement_result(ev, vdf) is Ok <==> (ev.header_hash@.len() == 32 && vdf.challenge@.len() == 32
            && vdf.output@.len() == 100),
        announcement_result(ev, vdf) matches Ok(b) ==> announcement_layout(b, ev, vdf),
{
    if ev.header_hash@.len() == 32 && vdf.challenge@.len() == 32 && vdf.output@.len() == 100 {
        let body = announcement_body(ev, vdf);
        let b = message_bytes(42, None, body);
        assert(body.len() == 177);
        lemma_u32_roundtrip(177);
        lemma_u32_roundtrip(ev.height);
        lemma_u64_roundtrip(vdf.number_of_iterations);
        assert(b.subrange(2, 6) =~= crate::wire::be_u32(177));
        assert(b.subrange(6, 10) =~= crate::wire::be_u32(ev.height));
        assert(b.subrange(10, 42) =~= ev.header_hash@);
        assert(b[42] == ev.field_vdf as u8);
        assert(b.subrange(43, 75) =~= vdf.challenge@);
        assert(b.subrange(75, 83) =~= be_u64(vdf.number_of_iterations));
        assert(b.subrange(83, 183) =~= vdf.output@);
    }
}

} // verus!
