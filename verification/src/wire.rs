//! Wire-level primitives: big-endian integers, length-delimited byte and
//! string fields, and the frame layout (4-byte big-endian length header
//! followed by exactly that many payload bytes).
//!
//! Every encoder has a spec-level counterpart returning a `Seq<u8>`, and
//! every field kind has a spec-level parser that consumes a prefix of a
//! byte sequence and returns the parsed value together with the remaining
//! suffix. Round-trip lemmas connect the two.

use vstd::prelude::*;

verus! {

/// The largest body length a 4-byte big-endian header can describe.
pub open spec fn max_frame_len() -> int {
    0xFFFF_FFFF
}

// ---------------------------------------------------------------------
// 32-bit big-endian integers
// ---------------------------------------------------------------------

/// The 4-byte big-endian encoding of `x`.
pub open spec fn spec_be32(x: u32) -> Seq<u8> {
    seq![(x >> 24) as u8, (x >> 16) as u8, (x >> 8) as u8, x as u8]
}

/// The value described by the first 4 bytes of `s`, big-endian.
pub open spec fn spec_be32_val(s: Seq<u8>) -> u32
    recommends
        s.len() >= 4,
{
    ((s[0] as u32) << 24) | ((s[1] as u32) << 16) | ((s[2] as u32) << 8) | (s[3] as u32)
}

/// Reading back the 4 bytes of a big-endian encoding yields the value
/// that was encoded.
pub proof fn lemma_be32_round_trip(x: u32)
    ensures
        spec_be32_val(spec_be32(x)) == x,
{
    assert((((x >> 24) as u8 as u32) << 24) | (((x >> 16) as u8 as u32) << 16) | (((x >> 8)
        as u8 as u32) << 8) | (x as u8 as u32) == x) by (bit_vector);
}

/// Appends the 4-byte big-endian encoding of `x` to `out`.
pub fn be32_encode(x: u32, out: &mut Vec<u8>)
    ensures
        final(out)@ == old(out)@ + spec_be32(x),
{
    out.push(#[verifier::truncate] ((x >> 24) as u8));
    out.push(#[verifier::truncate] ((x >> 16) as u8));
    out.push(#[verifier::truncate] ((x >> 8) as u8));
    out.push(#[verifier::truncate] (x as u8));
    assert(final(out)@ =~= old(out)@ + spec_be32(x));
}

/// Reads a 32-bit big-endian value from `bytes` at offset `at`.
pub fn be32_decode(bytes: &[u8], at: usize) -> (x: u32)
    requires
        at + 4 <= bytes@.len(),
    ensures
        x == spec_be32_val(bytes@.skip(at as int)),
{
    let b0 = bytes[at];
    let b1 = bytes[at + 1];
    let b2 = bytes[at + 2];
    let b3 = bytes[at + 3];
    let x = ((b0 as u32) << 24) | ((b1 as u32) << 16) | ((b2 as u32) << 8) | (b3 as u32);
    proof {
        let s = bytes@.skip(at as int);
        assert(s[0] == b0 && s[1] == b1 && s[2] == b2 && s[3] == b3);
    }
    x
}

/// Consumes a 32-bit big-endian field from the front of `s`.
pub open spec fn parse_u32(s: Seq<u8>) -> Option<(u32, Seq<u8>)> {
    if s.len() >= 4 {
        Some((spec_be32_val(s), s.skip(4)))
    } else {
        None
    }
}

/// A 32-bit field followed by any suffix parses back to the value that
/// was encoded, leaving exactly the suffix.
pub proof fn lemma_parse_u32(x: u32, rest: Seq<u8>)
    ensures
        parse_u32(spec_be32(x) + rest) == Some((x, rest)),
{
    let s = spec_be32(x) + rest;
    assert(s[0] == spec_be32(x)[0] && s[1] == spec_be32(x)[1] && s[2] == spec_be32(x)[2] && s[3]
        == spec_be32(x)[3]);
    lemma_be32_round_trip(x);
    assert(spec_be32_val(s) == spec_be32_val(spec_be32(x)));
    assert(s.skip(4) =~= rest);
}

// ---------------------------------------------------------------------
// Booleans
// ---------------------------------------------------------------------

/// The single-byte encoding of a boolean: 0 or 1.
pub open spec fn spec_bool_field(b: bool) -> Seq<u8> {
    if b {
        seq![1u8]
    } else {
        seq![0u8]
    }
}

/// Consumes a boolean byte from the front of `s`; any byte other than
/// 0 or 1 is rejected.
pub open spec fn parse_bool(s: Seq<u8>) -> Option<(bool, Seq<u8>)> {
    if s.len() >= 1 {
        if s[0] == 0u8 {
            Some((false, s.skip(1)))
        } else if s[0] == 1u8 {
            Some((true, s.skip(1)))
        } else {
            None
        }
    } else {
        None
    }
}

/// A boolean byte followed by any suffix parses back to the boolean
/// that was encoded.
pub proof fn lemma_parse_bool(b: bool, rest: Seq<u8>)
    ensures
        parse_bool(spec_bool_field(b) + rest) == Some((b, rest)),
{
    let s = spec_bool_field(b) + rest;
    assert(s.skip(1) =~= rest);
}

/// Appends the encoding of `b` to `out`.
pub fn bool_encode(b: bool, out: &mut Vec<u8>)
    ensures
        final(out)@ == old(out)@ + spec_bool_field(b),
{
    out.push(if b { 1u8 } else { 0u8 });
    assert(final(out)@ =~= old(out)@ + spec_bool_field(b));
}

// ---------------------------------------------------------------------
// Length-delimited byte fields
// ---------------------------------------------------------------------

/// A byte field: a 4-byte big-endian length, then that many bytes.
pub open spec fn spec_bytes_field(b: Seq<u8>) -> Seq<u8>
    recommends
        b.len() <= max_frame_len(),
{
    spec_be32(b.len() as u32) + b
}

/// Consumes a length-delimited byte field from the front of `s`.
pub open spec fn parse_bytes_field(s: Seq<u8>) -> Option<(Seq<u8>, Seq<u8>)> {
    match parse_u32(s) {
        Some((n, rest)) => if rest.len() >= n {
            Some((rest.take(n as int), rest.skip(n as int)))
        } else {
            None
        },
        None => None,
    }
}

/// A byte field followed by any suffix parses back to the bytes that
/// were encoded, leaving exactly the suffix.
pub proof fn lemma_parse_bytes_field(b: Seq<u8>, rest: Seq<u8>)
    requires
        b.len() <= max_frame_len(),
    ensures
        parse_bytes_field(spec_bytes_field(b) + rest) == Some((b, rest)),
{
    let n = b.len() as u32;
    assert(spec_bytes_field(b) + rest =~= spec_be32(n) + (b + rest));
    lemma_parse_u32(n, b + rest);
    assert((b + rest).take(n as int) =~= b);
    assert((b + rest).skip(n as int) =~= rest);
}

/// Appends the encoding of the byte field `b` to `out`.
pub fn bytes_field_encode(b: &Vec<u8>, out: &mut Vec<u8>)
    requires
        b@.len() <= max_frame_len(),
    ensures
        final(out)@ == old(out)@ + spec_bytes_field(b@),
{
    be32_encode(b.len() as u32, out);
    out.extend_from_slice(b.as_slice());
    assert(final(out)@ =~= old(out)@ + spec_bytes_field(b@));
}

// ---------------------------------------------------------------------
// Length-delimited strings
// ---------------------------------------------------------------------

/// A string field: the UTF-8 bytes of the string, as a byte field.
pub open spec fn spec_string_field(cs: Seq<char>) -> Seq<u8>
    recommends
        vstd::utf8::encode_utf8(cs).len() <= max_frame_len(),
{
    spec_bytes_field(vstd::utf8::encode_utf8(cs))
}

/// Consumes a length-delimited string field from the front of `s`;
/// bytes that are not valid UTF-8 are rejected.
pub open spec fn parse_string_field(s: Seq<u8>) -> Option<(Seq<char>, Seq<u8>)> {
    match parse_bytes_field(s) {
        Some((b, rest)) => if vstd::utf8::valid_utf8(b) {
            Some((vstd::utf8::decode_utf8(b), rest))
        } else {
            None
        },
        None => None,
    }
}

/// A string field followed by any suffix parses back to the characters
/// that were encoded, leaving exactly the suffix.
pub proof fn lemma_parse_string_field(cs: Seq<char>, rest: Seq<u8>)
    requires
        vstd::utf8::encode_utf8(cs).len() <= max_frame_len(),
    ensures
        parse_string_field(spec_string_field(cs) + rest) == Some((cs, rest)),
{
    broadcast use vstd::utf8::encode_utf8_valid_utf8;
    broadcast use vstd::utf8::encode_utf8_decode_utf8;

    lemma_parse_bytes_field(vstd::utf8::encode_utf8(cs), rest);
}

/// Appends the encoding of the string field `s` to `out`.
pub fn string_field_encode(s: &String, out: &mut Vec<u8>)
    requires
        vstd::utf8::encode_utf8(s@).len() <= max_frame_len(),
    ensures
        final(out)@ == old(out)@ + spec_string_field(s@),
{
    let bytes = s.as_str().as_bytes();
    be32_encode(bytes.len() as u32, out);
    out.extend_from_slice(bytes);
    assert(final(out)@ =~= old(out)@ + spec_string_field(s@));
}

/// Relies on `String::from_utf8`: it returns the string decoded from the
/// given bytes exactly when they are valid UTF-8, and an error otherwise.
#[verifier::external_body]
fn vec_to_string(bytes: Vec<u8>) -> (r: Option<String>)
    ensures
        match r {
            Some(s) => vstd::utf8::valid_utf8(bytes@) && s@ == vstd::utf8::decode_utf8(bytes@),
            None => !vstd::utf8::valid_utf8(bytes@),
        },
{
    String::from_utf8(bytes).ok()
}

// ---------------------------------------------------------------------
// Cursor-style executable decoders
// ---------------------------------------------------------------------

/// Reads a 32-bit field at offset `at`, returning the value and the
/// offset just past it.
pub fn u32_field_decode(bytes: &[u8], at: usize) -> (r: Option<(u32, usize)>)
    requires
        at <= bytes@.len(),
    ensures
        match r {
            Some((x, next)) => {
                &&& at <= next <= bytes@.len()
                &&& parse_u32(bytes@.skip(at as int)) == Some((x, bytes@.skip(next as int)))
            },
            None => parse_u32(bytes@.skip(at as int)) is None,
        },
{
    if bytes.len() - at >= 4 {
        let x = be32_decode(bytes, at);
        proof {
            assert(bytes@.skip(at as int).skip(4) =~= bytes@.skip(at + 4));
        }
        Some((x, at + 4))
    } else {
        None
    }
}

/// Reads a boolean field at offset `at`.
pub fn bool_field_decode(bytes: &[u8], at: usize) -> (r: Option<(bool, usize)>)
    requires
        at <= bytes@.len(),
    ensures
        match r {
            Some((b, next)) => {
                &&& at <= next <= bytes@.len()
                &&& parse_bool(bytes@.skip(at as int)) == Some((b, bytes@.skip(next as int)))
            },
            None => parse_bool(bytes@.skip(at as int)) is None,
        },
{
    if bytes.len() - at >= 1 {
        let b = bytes[at];
        proof {
            assert(bytes@.skip(at as int)[0] == bytes@[at as int]);
            assert(bytes@.skip(at as int).skip(1) =~= bytes@.skip(at + 1));
        }
        if b == 0 {
            Some((false, at + 1))
        } else if b == 1 {
            Some((true, at + 1))
        } else {
            None
        }
    } else {
        None
    }
}

/// Reads a length-delimited byte field at offset `at`, copying its
/// contents out.
pub fn bytes_field_decode(bytes: &[u8], at: usize) -> (r: Option<(Vec<u8>, usize)>)
    requires
        at <= bytes@.len(),
    ensures
        match r {
            Some((v, next)) => {
                &&& at <= next <= bytes@.len()
                &&& parse_bytes_field(bytes@.skip(at as int)) == Some(
                    (v@, bytes@.skip(next as int)),
                )
            },
            None => parse_bytes_field(bytes@.skip(at as int)) is None,
        },
{
    match u32_field_decode(bytes, at) {
        Some((n, body_at)) => {
            let n = n as usize;
            if bytes.len() - body_at >= n {
                let v = vstd::slice::slice_to_vec(vstd::slice::slice_subrange(
                    bytes,
                    body_at,
                    body_at + n,
                ));
                proof {
                    let tail = bytes@.skip(body_at as int);
                    assert(tail.take(n as int) =~= bytes@.subrange(
                        body_at as int,
                        body_at + n,
                    ));
                    assert(tail.skip(n as int) =~= bytes@.skip(body_at + n));
                }
                Some((v, body_at + n))
            } else {
                None
            }
        },
        None => None,
    }
}

/// Reads a length-delimited string field at offset `at`.
pub fn string_field_decode(bytes: &[u8], at: usize) -> (r: Option<(String, usize)>)
    requires
        at <= bytes@.len(),
    ensures
        match r {
            Some((s, next)) => {
                &&& at <= next <= bytes@.len()
                &&& parse_string_field(bytes@.skip(at as int)) == Some(
                    (s@, bytes@.skip(next as int)),
                )
            },
            None => parse_string_field(bytes@.skip(at as int)) is None,
        },
{
    match bytes_field_decode(bytes, at) {
        Some((v, next)) => match vec_to_string(v) {
            Some(s) => Some((s, next)),
            None => None,
        },
        None => None,
    }
}

// ---------------------------------------------------------------------
// Frames
// ---------------------------------------------------------------------

/// The frame that carries `body` on the wire: a 4-byte big-endian
/// length header, then the body itself.
pub open spec fn spec_frame(body: Seq<u8>) -> Seq<u8>
    recommends
        body.len() <= max_frame_len(),
{
    spec_be32(body.len() as u32) + body
}

/// Whether the byte sequence `s` begins with one complete frame.
pub open spec fn stream_has_frame(s: Seq<u8>) -> bool {
    s.len() >= 4 && s.len() >= 4 + spec_be32_val(s)
}

/// The body of the first frame of `s`.
pub open spec fn stream_frame_body(s: Seq<u8>) -> Seq<u8>
    recommends
        stream_has_frame(s),
{
    s.subrange(4, 4 + spec_be32_val(s))
}

/// What remains of `s` after its first frame.
pub open spec fn stream_rest(s: Seq<u8>) -> Seq<u8>
    recommends
        stream_has_frame(s),
{
    s.skip(4 + spec_be32_val(s))
}

/// The frame built from `body` is recovered intact from the front of a
/// stream, whatever follows it.
pub proof fn lemma_frame_round_trip(body: Seq<u8>, rest: Seq<u8>)
    requires
        body.len() <= max_frame_len(),
    ensures
        stream_has_frame(spec_frame(body) + rest),
        stream_frame_body(spec_frame(body) + rest) == body,
        stream_rest(spec_frame(body) + rest) == rest,
{
    let s = spec_frame(body) + rest;
    let n = body.len() as u32;
    assert(s[0] == spec_be32(n)[0] && s[1] == spec_be32(n)[1] && s[2] == spec_be32(n)[2] && s[3]
        == spec_be32(n)[3]);
    lemma_be32_round_trip(n);
    assert(spec_be32_val(s) == n);
    assert(s.subrange(4, 4 + n as int) =~= body);
    assert(s.skip(4 + n as int) =~= rest);
}

/// An envelope that can travel inside a frame.
///
/// `spec_encode` and `spec_decode` fix the canonical byte-level meaning
/// of a model value; the executable codecs are proved against them, and
/// `lemma_decode_encode` states the round-trip for every well-formed
/// value.
pub trait Message: View + Sized {
    /// The canonical serialization of a model value.
    spec fn spec_encode(v: Self::V) -> Seq<u8>;

    /// The canonical deserialization of a frame body; accepts exactly
    /// the byte sequences that `spec_encode` produces.
    spec fn spec_decode(s: Seq<u8>) -> Option<Self::V>;

    /// Whether every variable-length field of `v` fits its 4-byte
    /// length prefix.
    spec fn spec_wf(v: Self::V) -> bool;

    /// Decoding the encoding of any well-formed value yields that value.
    proof fn lemma_decode_encode(v: Self::V)
        requires
            Self::spec_wf(v),
        ensures
            Self::spec_decode(Self::spec_encode(v)) == Some(v),
    ;

    /// A value that is not well-formed serializes to more bytes than one
    /// frame can carry, so rejecting on total length alone also rejects
    /// every such value.
    proof fn lemma_oversize(v: Self::V)
        requires
            !Self::spec_wf(v),
        ensures
            Self::spec_encode(v).len() > max_frame_len(),
    ;

    /// Serializes the envelope; an envelope whose fields cannot fit
    /// their length prefixes is rejected before anything else happens.
    fn encode(&self) -> (r: Result<Vec<u8>, crate::MessageError>)
        ensures
            match r {
                Ok(out) => Self::spec_wf(self@) && out@ == Self::spec_encode(self@),
                Err(e) => e == crate::MessageError::EncodingTooLarge && !Self::spec_wf(self@),
            },
    ;

    /// Deserializes an envelope from exactly the given frame body.
    fn decode(bytes: &[u8]) -> (r: Option<Self>)
        ensures
            match r {
                Some(m) => Self::spec_decode(bytes@) == Some(m@),
                None => Self::spec_decode(bytes@) is None,
            },
    ;
}

/// Frames are read back in the order they were placed on the wire:
/// a stream holding the frames of `b1` then `b2` yields `b1` first,
/// then `b2`, and then whatever followed them.
pub proof fn lemma_order_preserved(b1: Seq<u8>, b2: Seq<u8>, rest: Seq<u8>)
    requires
        b1.len() <= max_frame_len(),
        b2.len() <= max_frame_len(),
    ensures
        ({
            let s = spec_frame(b1) + (spec_frame(b2) + rest);
            &&& stream_has_frame(s)
            &&& stream_frame_body(s) == b1
            &&& stream_has_frame(stream_rest(s))
            &&& stream_frame_body(stream_rest(s)) == b2
            &&& stream_rest(stream_rest(s)) == rest
        }),
{
    lemma_frame_round_trip(b1, spec_frame(b2) + rest);
    lemma_frame_round_trip(b2, rest);
}

/// Round-trip: the frame produced by encoding a well-formed message,
/// however it later arrives, is read back as one frame whose body
/// decodes to the same message — whatever else follows on the wire.
/// How the transport chunks the bytes cannot matter: the statement
/// depends only on the byte sequence itself.
pub proof fn lemma_message_round_trip<M: Message>(v: M::V, rest: Seq<u8>)
    requires
        M::spec_wf(v),
        M::spec_encode(v).len() <= max_frame_len(),
    ensures
        ({
            let s = spec_frame(M::spec_encode(v)) + rest;
            &&& stream_has_frame(s)
            &&& M::spec_decode(stream_frame_body(s)) == Some(v)
            &&& stream_rest(s) == rest
        }),
{
    lemma_frame_round_trip(M::spec_encode(v), rest);
    M::lemma_decode_encode(v);
}

/// Order preservation at the message level: a wire carrying the frames
/// of `v1` then `v2` yields `v1` on the first read and `v2` on the
/// second, never the reverse.
pub proof fn lemma_message_order_preserved<M: Message>(v1: M::V, v2: M::V, rest: Seq<u8>)
    requires
        M::spec_wf(v1),
        M::spec_encode(v1).len() <= max_frame_len(),
        M::spec_wf(v2),
        M::spec_encode(v2).len() <= max_frame_len(),
    ensures
        ({
            let s = spec_frame(M::spec_encode(v1)) + (spec_frame(M::spec_encode(v2)) + rest);
            &&& stream_has_frame(s)
            &&& M::spec_decode(stream_frame_body(s)) == Some(v1)
            &&& stream_has_frame(stream_rest(s))
            &&& M::spec_decode(stream_frame_body(stream_rest(s))) == Some(v2)
            &&& stream_rest(stream_rest(s)) == rest
        }),
{
    lemma_message_round_trip::<M>(v1, spec_frame(M::spec_encode(v2)) + rest);
    lemma_message_round_trip::<M>(v2, rest);
}

} // verus!
