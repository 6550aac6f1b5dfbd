//! The wire form of an output packet: the tagged message sent back to a
//! remote caller, carrying the port name, the invocation id and the payload
//! kind with its data.

use vstd::prelude::*;
use vstd::string::StringExecFns;

use crate::packet::{Packet, PacketSignal};

verus! {

/// The payload kind tag of a wire message.
#[derive(Debug, Clone, Copy, PartialEq, Eq, Structural)]
pub enum WireKind {
    Invalid,
    Exception,
    Error,
    MessagePack,
    Json,
    Signal,
}

/// The end-of-stream and bracket signals in wire form.
#[derive(Debug, Clone, Copy, PartialEq, Eq, Structural)]
pub enum WireSignal {
    Done,
    OpenBracket,
    CloseBracket,
}

/// The data of a wire message, matching its kind tag.
#[derive(Debug, Clone, PartialEq, Eq)]
pub enum WireData {
    Message(String),
    Messagepack(Vec<u8>),
    Json(String),
    Signal(WireSignal),
}

/// A kind tag together with its data, if the kind carries any.
#[derive(Debug, Clone, PartialEq, Eq)]
pub struct WireMessageKind {
    pub kind: WireKind,
    pub data: Option<WireData>,
}

/// A complete wire output: the port it was emitted on, the invocation it
/// answers, and the payload.
#[derive(Debug, Clone, PartialEq, Eq)]
pub struct WireOutput {
    pub port: String,
    pub invocation_id: String,
    pub payload: Option<WireMessageKind>,
}

/// The wire form of a packet signal.
pub open spec fn wire_signal_of(s: PacketSignal) -> WireSignal {
    match s {
        PacketSignal::Done => WireSignal::Done,
        PacketSignal::OpenBracket => WireSignal::OpenBracket,
        PacketSignal::CloseBracket => WireSignal::CloseBracket,
    }
}

/// The wire payload a packet maps to: each packet variant has exactly one
/// wire kind, and the data travels unchanged.
pub open spec fn wire_payload_of(p: Packet) -> WireMessageKind {
    match p {
        Packet::Success(b) => WireMessageKind {
            kind: WireKind::MessagePack,
            data: Some(WireData::Messagepack(b)),
        },
        Packet::Json(s) => WireMessageKind { kind: WireKind::Json, data: Some(WireData::Json(s)) },
        Packet::Error(m) => WireMessageKind {
            kind: WireKind::Error,
            data: Some(WireData::Message(m)),
        },
        Packet::Exception(m) => WireMessageKind {
            kind: WireKind::Exception,
            data: Some(WireData::Message(m)),
        },
        Packet::Invalid => WireMessageKind { kind: WireKind::Invalid, data: None },
        Packet::Signal(s) => WireMessageKind {
            kind: WireKind::Signal,
            data: Some(WireData::Signal(wire_signal_of(s))),
        },
    }
}

/// Builds the wire output for one packet: the port and invocation id are
/// copied through, and the payload is tagged by the packet's variant.
pub fn make_output(port: &str, inv_id: &str, payload: Packet) -> (r: WireOutput)
    ensures
        r.port@ == port@,
        r.invocation_id@ == inv_id@,
        r.payload == Some(wire_payload_of(payload)),
{
    let kind = match payload {
        Packet::Invalid => WireMessageKind { kind: WireKind::Invalid, data: None },
        Packet::Exception(msg) => WireMessageKind {
            kind: WireKind::Exception,
            data: Some(WireData::Message(msg)),
        },
        Packet::Error(msg) => WireMessageKind {
            kind: WireKind::Error,
            data: Some(WireData::Message(msg)),
        },
        Packet::Success(bytes) => WireMessageKind {
            kind: WireKind::MessagePack,
            data: Some(WireData::Messagepack(bytes)),
        },
        Packet::Json(json) => WireMessageKind {
            kind: WireKind::Json,
            data: Some(WireData::Json(json)),
        },
        Packet::Signal(signal) => match signal {
            PacketSignal::Done => WireMessageKind {
                kind: WireKind::Signal,
                data: Some(WireData::Signal(WireSignal::Done)),
            },
            PacketSignal::OpenBracket => WireMessageKind {
                kind: WireKind::Signal,
                data: Some(WireData::Signal(WireSignal::OpenBracket)),
            },
            PacketSignal::CloseBracket => WireMessageKind {
                kind: WireKind::Signal,
                data: Some(WireData::Signal(WireSignal::CloseBracket)),
            },
        },
    };
    WireOutput { port: port.to_owned(), invocation_id: inv_id.to_owned(), payload: Some(kind) }
}

} // verus!
