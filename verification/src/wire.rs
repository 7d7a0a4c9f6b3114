//! The byte layout of the Chia peer protocol messages this crate sends and reads
//! (the `Streamable` encoding: big-endian integers, fixed-size byte strings,
//! `u32`-length-prefixed byte strings, one-byte option tags).

use vstd::prelude::*;

verus! {

/// Big-endian encoding of a `u16`.
pub open spec fn be_u16(x: u16) -> Seq<u8> {
    seq![(x >> 8u16) as u8, x as u8]
}

/// Big-endian encoding of a `u32`.
pub open spec fn be_u32(x: u32) -> Seq<u8> {
    seq![(x >> 24u32) as u8, (x >> 16u32) as u8, (x >> 8u32) as u8, x as u8]
}

/// Big-endian encoding of a `u64`.
pub open spec fn be_u64(x: u64) -> Seq<u8> {
    seq![
        (x >> 56u64) as u8,
        (x >> 48u64) as u8,
        (x >> 40u64) as u8,
        (x >> 32u64) as u8,
        (x >> 24u64) as u8,
        (x >> 16u64) as u8,
        (x >> 8u64) as u8,
        x as u8,
    ]
}

/// The `u16` whose big-endian encoding starts `b`.
pub open spec fn read_be_u16(b: Seq<u8>) -> u16 {
    ((b[0] as u16) << 8u16) | (b[1] as u16)
}

/// The `u32` whose big-endian encoding starts `b`.
pub open spec fn read_be_u32(b: Seq<u8>) -> u32 {
    ((b[0] as u32) << 24u32) | ((b[1] as u32) << 16u32) | ((b[2] as u32) << 8u32) | (b[3] as u32)
}

/// The `u64` whose big-endian encoding starts `b`.
pub open spec fn read_be_u64(b: Seq<u8>) -> u64 {
    ((b[0] as u64) << 56u64) | ((b[1] as u64) << 48u64) | ((b[2] as u64) << 40u64) | ((b[3] as u64)
        << 32u64) | ((b[4] as u64) << 24u64) | ((b[5] as u64) << 16u64) | ((b[6] as u64) << 8u64) | (
    b[7] as u64)
}

/// Encoding of an optional `u16`: a tag byte, then the value if present.
pub open spec fn option_u16_bytes(id: Option<u16>) -> Seq<u8> {
    match id {
        None => seq![0u8],
        Some(v) => seq![1u8] + be_u16(v),
    }
}

/// Encoding of a variable-length byte string: its length as a big-endian `u32`, then the bytes.
pub open spec fn sized_bytes(data: Seq<u8>) -> Seq<u8> {
    be_u32(data.len() as u32) + data
}

/// The protocol message type numbers that exist.
pub open spec fn is_message_type_code(code: u8) -> bool {
    code == 1 || code == 3 || (5 <= code <= 107)
}

/// Encoding of a framed message: type number, optional request id, payload.
pub open spec fn message_bytes(code: u8, id: Option<u16>, data: Seq<u8>) -> Seq<u8> {
    seq![code] + option_u16_bytes(id) + sized_bytes(data)
}

/// The payload of a length-prefixed byte string that spans all of `r`.
pub open spec fn parse_sized_bytes_exact(r: Seq<u8>) -> Option<Seq<u8>> {
    if r.len() >= 4 && r.len() - 4 == read_be_u32(r) as int {
        Some(r.subrange(4, r.len() as int))
    } else {
        None
    }
}

/// What a framed message decodes to, if `b` is exactly one well-formed message.
pub open spec fn parse_message(b: Seq<u8>) -> Option<(u8, Option<u16>, Seq<u8>)> {
    if b.len() < 2 || !is_message_type_code(b[0]) {
        None
    } else if b[1] == 0 {
        match parse_sized_bytes_exact(b.subrange(2, b.len() as int)) {
            Some(d) => Some((b[0], None, d)),
            None => None,
        }
    } else if b[1] == 1 && b.len() >= 4 {
        match parse_sized_bytes_exact(b.subrange(4, b.len() as int)) {
            Some(d) => Some((b[0], Some(read_be_u16(b.subrange(2, 4))), d)),
            None => None,
        }
    } else {
        None
    }
}

/// Encoding of a `VDFInfo`: 32-byte challenge, iteration count, 100-byte output.
pub open spec fn vdf_info_bytes(challenge: Seq<u8>, number_of_iterations: u64, output: Seq<u8>) -> Seq<
    u8,
> {
    challenge + be_u64(number_of_iterations) + output
}

/// Size of an encoded `NewCompactVDF` / `RequestCompactVDF` body.
pub open spec fn compact_vdf_body_len() -> int {
    177
}

/// Encoding shared by `NewCompactVDF` and `RequestCompactVDF`:
/// height, 32-byte header hash, field byte, then the `VDFInfo`.
pub open spec fn compact_vdf_body_bytes(
    height: u32,
    header_hash: Seq<u8>,
    field_vdf: u8,
    challenge: Seq<u8>,
    number_of_iterations: u64,
    output: Seq<u8>,
) -> Seq<u8> {
    be_u32(height) + header_hash + seq![field_vdf] + vdf_info_bytes(
        challenge,
        number_of_iterations,
        output,
    )
}

/// The fields of a compact-VDF body: height, header hash, field, challenge, iterations, output.
pub struct CompactVdfFieldsView {
    pub height: u32,
    pub header_hash: Seq<u8>,
    pub field_vdf: u8,
    pub challenge: Seq<u8>,
    pub number_of_iterations: u64,
    pub output: Seq<u8>,
}

/// What a compact-VDF body decodes to, if `b` is exactly one.
pub open spec fn parse_compact_vdf_body(b: Seq<u8>) -> Option<CompactVdfFieldsView> {
    if b.len() == compact_vdf_body_len() {
        Some(
            CompactVdfFieldsView {
                height: read_be_u32(b),
                header_hash: b.subrange(4, 36),
                field_vdf: b[36],
                challenge: b.subrange(37, 69),
                number_of_iterations: read_be_u64(b.subrange(69, 77)),
                output: b.subrange(77, 177),
            },
        )
    } else {
        None
    }
}

/// Decoding a big-endian `u16` gives back the encoded value.
pub proof fn lemma_u16_roundtrip(x: u16)
    ensures
        read_be_u16(be_u16(x)) == x,
{
    let b0 = (x >> 8u16) as u8;
    let b1 = x as u8;
    assert(((b0 as u16) << 8u16) | (b1 as u16) == x) by (bit_vector)
        requires
            b0 == (x >> 8u16) as u8,
            b1 == x as u8,
    ;
}

/// Decoding a big-endian `u32` gives back the encoded value.
pub proof fn lemma_u32_roundtrip(x: u32)
    ensures
        read_be_u32(be_u32(x)) == x,
{
    let b0 = (x >> 24u32) as u8;
    let b1 = (x >> 16u32) as u8;
    let b2 = (x >> 8u32) as u8;
    let b3 = x as u8;
    assert(((b0 as u32) << 24u32) | ((b1 as u32) << 16u32) | ((b2 as u32) << 8u32) | (b3 as u32)
        == x) by (bit_vector)
        requires
            b0 == (x >> 24u32) as u8,
            b1 == (x >> 16u32) as u8,
            b2 == (x >> 8u32) as u8,
            b3 == x as u8,
    ;
}

/// Decoding a big-endian `u64` gives back the encoded value.
pub proof fn lemma_u64_roundtrip(x: u64)
    ensures
        read_be_u64(be_u64(x)) == x,
{
    let b0 = (x >> 56u64) as u8;
    let b1 = (x >> 48u64) as u8;
    let b2 = (x >> 40u64) as u8;
    let b3 = (x >> 32u64) as u8;
    let b4 = (x >> 24u64) as u8;
    let b5 = (x >> 16u64) as u8;
    let b6 = (x >> 8u64) as u8;
    let b7 = x as u8;
    assert(((b0 as u64) << 56u64) | ((b1 as u64) << 48u64) | ((b2 as u64) << 40u64) | ((b3 as u64)
        << 32u64) | ((b4 as u64) << 24u64) | ((b5 as u64) << 16u64) | ((b6 as u64) << 8u64) | (
    b7 as u64) == x) by (bit_vector)
        requires
            b0 == (x >> 56u64) as u8,
            b1 == (x >> 48u64) as u8,
            b2 == (x >> 40u64) as u8,
            b3 == (x >> 32u64) as u8,
            b4 == (x >> 24u64) as u8,
            b5 == (x >> 16u64) as u8,
            b6 == (x >> 8u64) as u8,
            b7 == x as u8,
    ;
}

/// A message with an absent id decodes back to its type, id and payload.
pub proof fn lemma_parse_message_bytes(code: u8, id: Option<u16>, data: Seq<u8>)
    requires
        is_message_type_code(code),
        data.len() <= u32::MAX,
    ensures
        parse_message(message_bytes(code, id, data)) == Some((code, id, data)),
{
    let b = message_bytes(code, id, data);
    lemma_u32_roundtrip(data.len() as u32);
    match id {
        None => {
            assert(b.subrange(2, b.len() as int) =~= sized_bytes(data));
            assert(sized_bytes(data).subrange(0, 4) =~= be_u32(data.len() as u32));
            assert(read_be_u32(sized_bytes(data)) == read_be_u32(be_u32(data.len() as u32)));
            assert(sized_bytes(data).subrange(4, sized_bytes(data).len() as int) =~= data);
        },
        Some(v) => {
            lemma_u16_roundtrip(v);
            assert(b.subrange(2, 4) =~= be_u16(v));
            assert(b.subrange(4, b.len() as int) =~= sized_bytes(data));
            assert(read_be_u32(sized_bytes(data)) == read_be_u32(be_u32(data.len() as u32)));
            assert(sized_bytes(data).subrange(4, sized_bytes(data).len() as int) =~= data);
        },
    }
}

/// A compact-VDF body decodes back to the fields it was built from.
pub proof fn lemma_parse_compact_vdf_body(
    height: u32,
    header_hash: Seq<u8>,
    field_vdf: u8,
    challenge: Seq<u8>,
    number_of_iterations: u64,
    output: Seq<u8>,
)
    requires
        header_hash.len() == 32,
        challenge.len() == 32,
        output.len() == 100,
    ensures
        parse_compact_vdf_body(
            compact_vdf_body_bytes(
                height,
                header_hash,
                field_vdf,
                challenge,
                number_of_iterations,
                output,
            ),
        ) == Some(
            CompactVdfFieldsView {
                height,
                header_hash,
                field_vdf,
                challenge,
                number_of_iterations,
                output,
            },
        ),
{
    let b = compact_vdf_body_bytes(
        height,
        header_hash,
        field_vdf,
        challenge,
        number_of_iterations,
        output,
    );
    lemma_u32_roundtrip(height);
    lemma_u64_roundtrip(number_of_iterations);
    assert(b.len() == 177);
    assert(b.subrange(4, 36) =~= header_hash);
    assert(b.subrange(37, 69) =~= challenge);
    assert(b.subrange(69, 77) =~= be_u64(number_of_iterations));
    assert(b.subrange(77, 177) =~= output);
    assert(read_be_u32(b) == read_be_u32(be_u32(height)));
}

/// Re-encoding the first four bytes as a big-endian `u32` gives them back.
pub proof fn lemma_u32_bytes_roundtrip(b: Seq<u8>)
    requires
        b.len() >= 4,
    ensures
        be_u32(read_be_u32(b)) == b.subrange(0, 4),
{
    let (b0, b1, b2, b3) = (b[0], b[1], b[2], b[3]);
    let x = read_be_u32(b);
    assert((x >> 24u32) as u8 == b0 && (x >> 16u32) as u8 == b1 && (x >> 8u32) as u8 == b2 && x as u8 == b3)
        by (bit_vector)
        requires
            x == ((b0 as u32) << 24u32) | ((b1 as u32) << 16u32) | ((b2 as u32) << 8u32) | (b3 as u32),
    ;
    assert(be_u32(x) =~= b.subrange(0, 4));
}

/// Re-encoding eight decoded bytes gives back the same bytes.
pub proof fn lemma_u64_bytes_roundtrip(b: Seq<u8>)
    requires
        b.len() == 8,
    ensures
        be_u64(read_be_u64(b)) == b,
{
    let (b0, b1, b2, b3, b4, b5, b6, b7) = (b[0], b[1], b[2], b[3], b[4], b[5], b[6], b[7]);
    let x = read_be_u64(b);
    assert((x >> 56u64) as u8 == b0 && (x >> 48u64) as u8 == b1 && (x >> 40u64) as u8 == b2 && (x
        >> 32u64) as u8 == b3 && (x >> 24u64) as u8 == b4 && (x >> 16u64) as u8 == b5 && (x
        >> 8u64) as u8 == b6 && x as u8 == b7) by (bit_vector)
        requires
            x == ((b0 as u64) << 56u64) | ((b1 as u64) << 48u64) | ((b2 as u64) << 40u64) | ((
            b3 as u64) << 32u64) | ((b4 as u64) << 24u64) | ((b5 as u64) << 16u64) | ((b6 as u64)
                << 8u64) | (b7 as u64),
    ;
    assert(be_u64(x) =~= b);
}

/// Decoding a compact-VDF body loses nothing: re-encoding its fields gives the body back.
pub proof fn lemma_compact_vdf_body_reencodes(b: Seq<u8>)
    requires
        b.len() == compact_vdf_body_len(),
    ensures
        parse_compact_vdf_body(b) matches Some(f) && compact_vdf_body_bytes(
            f.height,
            f.header_hash,
            f.field_vdf,
            f.challenge,
            f.number_of_iterations,
            f.output,
        ) == b,
{
    lemma_u32_bytes_roundtrip(b);
    lemma_u64_bytes_roundtrip(b.subrange(69, 77));
    let f = parse_compact_vdf_body(b).unwrap();
    assert(compact_vdf_body_bytes(f.height, f.header_hash, f.field_vdf, f.challenge, f.number_of_iterations, f.output)
        =~= b);
}

} // verus!
