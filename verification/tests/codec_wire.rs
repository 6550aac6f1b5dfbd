//! Packet encoding, decoding, wire conversion and the guest-output bridge.

use vino_runtime::bridge::{
    handle_link_result, handle_log_level, output_signal_from_str, LogLevel, OutputSignal,
    Transaction, TxRegistry,
};
use vino_runtime::codec::{encode, encode_bytes, round_trip, try_into_string, DecodeError};
use vino_runtime::error::TransportError;
use vino_runtime::packet::{check_brackets, done, Packet, PacketSignal, PortedPacket};
use vino_runtime::wire::{make_output, WireData, WireKind, WireSignal};

#[test]
fn packet_round_trip() {
    let r = round_trip("out".to_string(), "hello");
    assert_eq!(r, Ok(Some("hello".to_string())));
}

#[test]
fn encode_produces_messagepack() {
    let p = encode("out".to_string(), "hello");
    assert_eq!(p.port, "out");
    let expected = rmp_serde::to_vec("hello").unwrap();
    assert_eq!(p.packet, Packet::Success(expected));
}

#[test]
fn encode_bytes_produces_messagepack() {
    let value: Vec<u8> = vec![1, 2, 3];
    let p = encode_bytes("out".to_string(), &value);
    let expected = rmp_serde::to_vec(&value).unwrap();
    assert_eq!(p.packet, Packet::Success(expected));
}

#[test]
fn decode_done_is_end_of_stream() {
    let r = try_into_string(Packet::Signal(PacketSignal::Done));
    assert_eq!(r, Ok(None));
}

#[test]
fn decode_failures() {
    assert_eq!(
        try_into_string(Packet::Error("bad".to_string())),
        Err(DecodeError::Error("bad".to_string()))
    );
    assert_eq!(
        try_into_string(Packet::Exception("worse".to_string())),
        Err(DecodeError::Exception("worse".to_string()))
    );
    assert_eq!(try_into_string(Packet::Invalid), Err(DecodeError::Invalid));
    assert_eq!(
        try_into_string(Packet::Signal(PacketSignal::OpenBracket)),
        Err(DecodeError::UnexpectedSignal)
    );
    assert_eq!(
        try_into_string(Packet::Signal(PacketSignal::CloseBracket)),
        Err(DecodeError::UnexpectedSignal)
    );
    assert_eq!(
        try_into_string(Packet::Json("{}".to_string())),
        Err(DecodeError::NeedsConversion)
    );
    assert!(matches!(
        try_into_string(Packet::Success(vec![0xc1])),
        Err(DecodeError::Deserialize(_))
    ));
}

#[test]
fn done_packet_closes_port() {
    let p = done("out".to_string());
    assert_eq!(p.port, "out");
    assert!(p.packet.is_done());
}

#[test]
fn wire_output_per_variant() {
    let o = make_output("p", "inv-1", Packet::Success(vec![9]));
    assert_eq!(o.port, "p");
    assert_eq!(o.invocation_id, "inv-1");
    let payload = o.payload.unwrap();
    assert_eq!(payload.kind, WireKind::MessagePack);
    assert_eq!(payload.data, Some(WireData::Messagepack(vec![9])));

    let o = make_output("p", "i", Packet::Json("{\"a\":1}".to_string()));
    let payload = o.payload.unwrap();
    assert_eq!(payload.kind, WireKind::Json);
    assert_eq!(payload.data, Some(WireData::Json("{\"a\":1}".to_string())));

    let o = make_output("p", "i", Packet::Error("oops".to_string()));
    let payload = o.payload.unwrap();
    assert_eq!(payload.kind, WireKind::Error);
    assert_eq!(payload.data, Some(WireData::Message("oops".to_string())));

    let o = make_output("p", "i", Packet::Exception("oops".to_string()));
    assert_eq!(o.payload.unwrap().kind, WireKind::Exception);

    let o = make_output("p", "i", Packet::Invalid);
    let payload = o.payload.unwrap();
    assert_eq!(payload.kind, WireKind::Invalid);
    assert_eq!(payload.data, None);

    let o = make_output("p", "i", Packet::Signal(PacketSignal::Done));
    let payload = o.payload.unwrap();
    assert_eq!(payload.kind, WireKind::Signal);
    assert_eq!(payload.data, Some(WireData::Signal(WireSignal::Done)));

    let o = make_output("p", "i", Packet::Signal(PacketSignal::OpenBracket));
    assert_eq!(
        o.payload.unwrap().data,
        Some(WireData::Signal(WireSignal::OpenBracket))
    );
    let o = make_output("p", "i", Packet::Signal(PacketSignal::CloseBracket));
    assert_eq!(
        o.payload.unwrap().data,
        Some(WireData::Signal(WireSignal::CloseBracket))
    );
}

#[test]
fn output_signal_names() {
    assert_eq!(output_signal_from_str("output"), Some(OutputSignal::Output));
    assert_eq!(
        output_signal_from_str("output_done"),
        Some(OutputSignal::OutputDone)
    );
    assert_eq!(output_signal_from_str("done"), Some(OutputSignal::Done));
    assert_eq!(output_signal_from_str("bogus"), None);
}

#[test]
fn done_is_monotone() {
    let mut tx = Transaction::new();
    assert!(tx.handle_output_signal("out", OutputSignal::Output, vec![1]).is_ok());
    assert!(tx
        .handle_output_signal("out", OutputSignal::OutputDone, vec![2])
        .is_ok());
    // the port is sealed now: every further call on it is a double close
    let r = tx.handle_output_signal("out", OutputSignal::Output, vec![3]);
    assert_eq!(r, Err(TransportError::DoubleClose("out".to_string())));
    let r = tx.handle_output_signal("out", OutputSignal::Done, vec![]);
    assert_eq!(r, Err(TransportError::DoubleClose("out".to_string())));
    // the buffer holds exactly what arrived before the seal, in order
    assert_eq!(tx.buffer.len(), 3);
    assert_eq!(tx.buffer[0].packet, Packet::Success(vec![1]));
    assert_eq!(tx.buffer[1].packet, Packet::Success(vec![2]));
    assert_eq!(tx.buffer[2].packet, Packet::Signal(PacketSignal::Done));
    // another port is untouched by the seal
    assert!(tx.handle_output_signal("other", OutputSignal::Done, vec![]).is_ok());
}

#[test]
fn frames_route_to_their_own_transaction() {
    let mut reg = TxRegistry::new();
    assert!(reg.register(1));
    assert!(reg.register(2));
    assert!(!reg.register(2));

    // the frame head is the big-endian transaction id
    let frame = vec![0, 0, 0, 1, 0xAA];
    assert!(reg.deliver_frame("out", OutputSignal::Output, &frame).is_ok());

    let tx1 = &reg.entries[0].1;
    let tx2 = &reg.entries[1].1;
    assert_eq!(tx1.buffer.len(), 1);
    assert_eq!(tx1.buffer[0].packet, Packet::Success(vec![0xAA]));
    // no cross-transaction leakage: transaction 2 saw nothing
    assert_eq!(tx2.buffer.len(), 0);
    assert_eq!(tx2.ports.len(), 0);

    // a frame naming a dead id is refused as an unknown transaction
    let frame = vec![0, 0, 0, 9, 0xBB];
    assert_eq!(
        reg.deliver_frame("out", OutputSignal::Output, &frame),
        Err(TransportError::InvalidTransaction(9))
    );
}

#[test]
fn log_levels() {
    assert_eq!(handle_log_level("trace"), Ok(LogLevel::Trace));
    assert_eq!(handle_log_level("debug"), Ok(LogLevel::Debug));
    assert_eq!(handle_log_level("info"), Ok(LogLevel::Info));
    assert_eq!(handle_log_level("warn"), Ok(LogLevel::Warn));
    assert_eq!(handle_log_level("error"), Ok(LogLevel::Error));
    assert_eq!(handle_log_level("mark"), Ok(LogLevel::Mark));
    assert_eq!(
        handle_log_level("shout"),
        Err("Invalid log level: shout".to_string())
    );
}

#[test]
fn link_results_are_normalised() {
    // no callback installed
    let r = handle_link_result(None);
    assert_eq!(
        r,
        Err("Host link called with no callback provided in the WaPC host.".to_string())
    );
    // callback failure passes through
    let r = handle_link_result(Some(Err("down".to_string())));
    assert_eq!(r, Err("down".to_string()));
    // JSON payloads are re-encoded to MessagePack; others stay
    let packets = vec![
        PortedPacket { port: "a".to_string(), packet: Packet::Json("x".to_string()) },
        PortedPacket { port: "b".to_string(), packet: Packet::Success(vec![7]) },
    ];
    let r = handle_link_result(Some(Ok(packets))).unwrap();
    assert_eq!(r[0].port, "a");
    assert_eq!(r[0].packet, Packet::Success(rmp_serde::to_vec("x").unwrap()));
    assert_eq!(r[1].packet, Packet::Success(vec![7]));
}

#[test]
fn bracket_balance() {
    let open = Packet::Signal(PacketSignal::OpenBracket);
    let close = Packet::Signal(PacketSignal::CloseBracket);
    let value = Packet::Success(vec![1]);

    // a balanced batch, including a nested one
    let stream = vec![open.clone(), value.clone(), close.clone()];
    assert_eq!(check_brackets(&stream), Ok(()));
    let stream = vec![open.clone(), open.clone(), value.clone(), close.clone(), close.clone()];
    assert_eq!(check_brackets(&stream), Ok(()));
    assert_eq!(check_brackets(&vec![]), Ok(()));

    // a close without an open, and an open never closed, are framing errors
    let stream = vec![close.clone(), open.clone()];
    assert_eq!(check_brackets(&stream), Err(TransportError::BracketImbalance));
    let stream = vec![open.clone(), value.clone()];
    assert_eq!(check_brackets(&stream), Err(TransportError::BracketImbalance));
}

#[test]
fn transport_error_messages() {
    assert_eq!(
        TransportError::DoubleClose("out".to_string()).message(),
        "port already closed: out"
    );
    assert_eq!(
        TransportError::BracketImbalance.message(),
        "unbalanced brackets in port stream"
    );
    assert_eq!(
        TransportError::ChannelClosedEarly.message(),
        "channel closed while data still available"
    );
    assert_eq!(
        TransportError::InvalidTransaction(7).message(),
        "no live transaction under the frame's id"
    );
}
