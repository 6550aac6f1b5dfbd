//! The encoding layer: values are carried on ports as MessagePack bytes.
//!
//! The MessagePack encoding itself is done by `rmp_serde`; its results are
//! named by uninterpreted functions, and everything around the calls
//! (wrapping into packets, the decoder's case analysis, the round-trip law)
//! is verified against those names.

use vstd::prelude::*;

use crate::packet::{Packet, PacketSignal, PortedPacket};

verus! {

/// The MessagePack encoding of a string value.
pub uninterp spec fn string_msgpack_of(s: Seq<char>) -> Seq<u8>;

/// The MessagePack encoding of a byte-array value.
pub uninterp spec fn bytes_msgpack_of(b: Seq<u8>) -> Seq<u8>;

/// Why a packet could not be decoded into a value.
#[derive(Debug, Clone, PartialEq, Eq)]
pub enum DecodeError {
    /// The packet was an in-band `Error`; its message is carried along.
    Error(String),
    /// The packet was an in-band `Exception`; its message is carried along.
    Exception(String),
    /// The packet was `Invalid`.
    Invalid,
    /// The packet was a bracket signal, which carries no value.
    UnexpectedSignal,
    /// The packet carried JSON text; converting it is an explicit operation,
    /// never done silently by the decoder.
    NeedsConversion,
    /// The payload bytes could not be deserialised.
    Deserialize(String),
}

/// Relies on `rmp_serde::to_vec`: the MessagePack encoding of a string is a
/// function of its characters alone. Serialisation of a string into a `Vec`
/// cannot fail, so the fallback arm is unreachable.
#[verifier::external_body]
pub(crate) fn msgpack_encode_string(s: &str) -> (r: Vec<u8>)
    ensures
        r@ == string_msgpack_of(s@),
{
    match rmp_serde::to_vec(s) {
        Ok(v) => v,
        Err(_) => Vec::new(),
    }
}

/// Whether `r` is the successful decoding of whatever string `b` encodes:
/// if `b` is the encoding of some string, the result is exactly that string.
pub open spec fn decodes_string(b: Seq<u8>, r: Result<String, String>) -> bool {
    forall|s: Seq<char>| b == string_msgpack_of(s) ==> (r matches Ok(t) && t@ == s)
}

/// Relies on `rmp_serde::from_slice`: decoding the MessagePack encoding of a
/// string yields that string back (the encoding is self-describing and
/// injective).
#[verifier::external_body]
pub(crate) fn msgpack_decode_string(b: &[u8]) -> (r: Result<String, String>)
    ensures
        decodes_string(b@, r),
{
    rmp_serde::from_slice::<String>(b).map_err(|e| e.to_string())
}

/// Relies on `rmp_serde::to_vec`: the MessagePack encoding of a byte array is
/// a function of the bytes alone. Serialisation into a `Vec` cannot fail, so
/// the fallback arm is unreachable.
#[verifier::external_body]
pub(crate) fn msgpack_encode_bytes(v: &Vec<u8>) -> (r: Vec<u8>)
    ensures
        r@ == bytes_msgpack_of(v@),
{
    match rmp_serde::to_vec(v) {
        Ok(r) => r,
        Err(_) => Vec::new(),
    }
}

/// The MessagePack encoding of an unsigned 32-bit value.
pub uninterp spec fn u32_msgpack_of(n: u32) -> Seq<u8>;

/// Whether `r` is the successful decoding of whatever 32-bit value `b`
/// encodes.
pub open spec fn decodes_u32(b: Seq<u8>, r: Result<u32, String>) -> bool {
    forall|n: u32| b == u32_msgpack_of(n) ==> r == Ok::<u32, String>(n)
}

/// Relies on `rmp_serde::to_vec`: the MessagePack encoding of an unsigned
/// 32-bit value is a function of the value alone. Serialisation into a
/// `Vec` cannot fail, so the fallback arm is unreachable.
#[verifier::external_body]
pub(crate) fn msgpack_encode_u32(n: u32) -> (r: Vec<u8>)
    ensures
        r@ == u32_msgpack_of(n),
{
    match rmp_serde::to_vec(&n) {
        Ok(v) => v,
        Err(_) => Vec::new(),
    }
}

/// Relies on `rmp_serde::from_slice`: decoding the MessagePack encoding of
/// an unsigned 32-bit value yields that value back.
#[verifier::external_body]
pub(crate) fn msgpack_decode_u32(b: &[u8]) -> (r: Result<u32, String>)
    ensures
        decodes_u32(b@, r),
{
    rmp_serde::from_slice::<u32>(b).map_err(|e| e.to_string())
}

/// Whether `r` is the successful decoding of whatever byte array `b`
/// encodes.
pub open spec fn decodes_bytes(b: Seq<u8>, r: Result<Vec<u8>, String>) -> bool {
    forall|v: Seq<u8>| b == bytes_msgpack_of(v) ==> (r matches Ok(t) && t@ == v)
}

/// Relies on `rmp_serde::from_slice`: decoding the MessagePack encoding of a
/// byte array yields those bytes back.
#[verifier::external_body]
pub(crate) fn msgpack_decode_bytes(b: &[u8]) -> (r: Result<Vec<u8>, String>)
    ensures
        decodes_bytes(b@, r),
{
    rmp_serde::from_slice::<Vec<u8>>(b).map_err(|e| e.to_string())
}

/// Serialises `value` to MessagePack and wraps it as a `Success` packet on
/// `port`.
pub fn encode(port: String, value: &str) -> (r: PortedPacket)
    ensures
        r.port == port,
        r.packet matches Packet::Success(b) && b@ == string_msgpack_of(value@),
{
    PortedPacket { port, packet: Packet::Success(msgpack_encode_string(value)) }
}

/// Serialises a byte-array `value` to MessagePack and wraps it as a
/// `Success` packet on `port`.
pub fn encode_bytes(port: String, value: &Vec<u8>) -> (r: PortedPacket)
    ensures
        r.port == port,
        r.packet matches Packet::Success(b) && b@ == bytes_msgpack_of(value@),
{
    PortedPacket { port, packet: Packet::Success(msgpack_encode_bytes(value)) }
}

/// Decodes a packet into a string value: `Done` signals end of stream
/// (`None`), in-band failures and brackets are decode errors, and a
/// `Success` payload is deserialised.
pub fn try_into_string(packet: Packet) -> (r: Result<Option<String>, DecodeError>)
    ensures
        packet == Packet::Signal(PacketSignal::Done) ==> r == Ok::<Option<String>, DecodeError>(None),
        packet == Packet::Signal(PacketSignal::OpenBracket) || packet == Packet::Signal(PacketSignal::CloseBracket)
            ==> r == Err::<Option<String>, DecodeError>(DecodeError::UnexpectedSignal),
        packet matches Packet::Error(m) ==> r == Err::<Option<String>, DecodeError>(DecodeError::Error(m)),
        packet matches Packet::Exception(m) ==> r == Err::<Option<String>, DecodeError>(DecodeError::Exception(m)),
        packet == Packet::Invalid ==> r == Err::<Option<String>, DecodeError>(DecodeError::Invalid),
        packet matches Packet::Json(_) ==> r == Err::<Option<String>, DecodeError>(DecodeError::NeedsConversion),
        forall|s: Seq<char>|
            (packet matches Packet::Success(b) && b@ == #[trigger] string_msgpack_of(s))
                ==> (r matches Ok(o) && o matches Some(t) && t@ == s),
{
    match packet {
        Packet::Success(b) => match msgpack_decode_string(b.as_slice()) {
            Ok(t) => Ok(Some(t)),
            Err(m) => Err(DecodeError::Deserialize(m)),
        },
        Packet::Json(_) => Err(DecodeError::NeedsConversion),
        Packet::Error(m) => Err(DecodeError::Error(m)),
        Packet::Exception(m) => Err(DecodeError::Exception(m)),
        Packet::Invalid => Err(DecodeError::Invalid),
        Packet::Signal(s) => match s {
            PacketSignal::Done => Ok(None),
            _ => Err(DecodeError::UnexpectedSignal),
        },
    }
}

/// The packet round-trip law: decoding an encoded value yields the value
/// back, and decoding a `Done` packet yields end of stream.
pub fn round_trip(port: String, value: &str) -> (r: Result<Option<String>, DecodeError>)
    ensures
        r matches Ok(o) && o matches Some(t) && t@ == value@,
{
    let p = encode(port, value);
    try_into_string(p.packet)
}

} // verus!
