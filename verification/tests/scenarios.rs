//! End-to-end scenarios over the transaction engine and the network
//! service: single node, pipeline, fan-out, defaults, mid-stream errors
//! and cancellation.

use vino_runtime::engine::{flush_timeout, is_complete, run, seed_defaults, seed_input, step, Transaction};
use vino_runtime::error::{NetworkError, TransportError, ValidationError};
use vino_runtime::network::NetworkService;
use vino_runtime::packet::{Packet, PacketSignal, PortedPacket};
use vino_runtime::schematic::{
    validate, ConnectionDef, InstanceDef, Operation, PortRef, SchematicDef, SchematicModel,
};

fn port_ref(instance: &str, port: &str) -> PortRef {
    PortRef { instance: instance.to_string(), port: port.to_string() }
}

fn conn(fi: &str, fp: &str, ti: &str, tp: &str) -> ConnectionDef {
    ConnectionDef { from: port_ref(fi, fp), to: port_ref(ti, tp) }
}

fn inst(name: &str, operation: Operation) -> InstanceDef {
    InstanceDef { name: name.to_string(), operation }
}

fn enc(s: &str) -> Packet {
    Packet::Success(rmp_serde::to_vec(&s.as_bytes().to_vec()).unwrap())
}

fn dec(p: &Packet) -> String {
    match p {
        Packet::Success(b) => {
            let bytes: Vec<u8> = rmp_serde::from_slice(b).unwrap();
            String::from_utf8(bytes).unwrap()
        }
        other => panic!("not a success packet: {:?}", other),
    }
}

fn simple_schematic() -> SchematicModel {
    let def = SchematicDef {
        name: "simple".to_string(),
        instances: vec![inst("log", Operation::Echo)],
        connections: vec![
            conn("<input>", "input", "log", "input"),
            conn("log", "output", "<output>", "output"),
        ],
        defaults: vec![],
    };
    validate(def).unwrap()
}

#[test]
fn single_node_log() {
    let model = simple_schematic();
    let mut tx = Transaction::new("tx-1".to_string(), &model);
    seed_input(&mut tx, &model, "input", &enc("hello"));
    seed_input(&mut tx, &model, "input", &Packet::Signal(PacketSignal::Done));
    run(&mut tx, &model, 16);
    assert_eq!(tx.outputs.len(), 2);
    assert_eq!(tx.outputs[0].port, "output");
    assert_eq!(dec(&tx.outputs[0].packet), "hello");
    assert_eq!(tx.outputs[1].packet, Packet::Signal(PacketSignal::Done));
    assert!(is_complete(&tx, &model));
}

#[test]
fn two_stage_pipeline() {
    let def = SchematicDef {
        name: "pipeline".to_string(),
        instances: vec![inst("rev", Operation::Reverse), inst("up", Operation::Upper)],
        connections: vec![
            conn("<input>", "input", "rev", "input"),
            conn("rev", "output", "up", "input"),
            conn("up", "output", "<output>", "output"),
        ],
        defaults: vec![],
    };
    let model = validate(def).unwrap();
    let mut tx = Transaction::new("tx-2".to_string(), &model);
    seed_input(&mut tx, &model, "input", &enc("abc"));
    seed_input(&mut tx, &model, "input", &Packet::Signal(PacketSignal::Done));
    run(&mut tx, &model, 32);
    assert_eq!(dec(&tx.outputs[0].packet), "CBA");
    assert_eq!(tx.outputs[1].packet, Packet::Signal(PacketSignal::Done));
    assert!(is_complete(&tx, &model));
}

#[test]
fn fan_out_two_downstreams() {
    let def = SchematicDef {
        name: "fanout".to_string(),
        instances: vec![inst("a", Operation::Echo)],
        connections: vec![
            conn("<input>", "input", "a", "input"),
            conn("a", "output", "<output>", "left"),
            conn("a", "output", "<output>", "right"),
        ],
        defaults: vec![],
    };
    let model = validate(def).unwrap();
    let mut tx = Transaction::new("tx-3".to_string(), &model);
    seed_input(&mut tx, &model, "input", &enc("x"));
    seed_input(&mut tx, &model, "input", &Packet::Signal(PacketSignal::Done));
    run(&mut tx, &model, 16);
    // both downstream ports observe the value, then Done, in FIFO order
    let left: Vec<&PortedPacket> = tx.outputs.iter().filter(|p| p.port == "left").collect();
    let right: Vec<&PortedPacket> = tx.outputs.iter().filter(|p| p.port == "right").collect();
    assert_eq!(left.len(), 2);
    assert_eq!(right.len(), 2);
    assert_eq!(dec(&left[0].packet), "x");
    assert_eq!(dec(&right[0].packet), "x");
    assert_eq!(left[1].packet, Packet::Signal(PacketSignal::Done));
    assert_eq!(right[1].packet, Packet::Signal(PacketSignal::Done));
    assert!(is_complete(&tx, &model));
}

#[test]
fn default_value_fires_node() {
    let def = SchematicDef {
        name: "defaulted".to_string(),
        instances: vec![inst("d", Operation::Echo)],
        connections: vec![conn("d", "output", "<output>", "output")],
        defaults: vec![("d".to_string(), "42".to_string())],
    };
    let model = validate(def).unwrap();
    let mut tx = Transaction::new("tx-4".to_string(), &model);
    // the invocation carries no value for the input: the default fires
    seed_defaults(&mut tx, &model);
    run(&mut tx, &model, 16);
    assert_eq!(tx.outputs.len(), 2);
    assert_eq!(tx.outputs[0].packet, Packet::Json("42".to_string()));
    assert_eq!(tx.outputs[1].packet, Packet::Signal(PacketSignal::Done));
    assert!(is_complete(&tx, &model));
}

#[test]
fn mid_stream_error_still_delivers() {
    let model = simple_schematic();
    let mut tx = Transaction::new("tx-5".to_string(), &model);
    seed_input(&mut tx, &model, "input", &enc("p1"));
    seed_input(&mut tx, &model, "input", &Packet::Error("bad".to_string()));
    seed_input(&mut tx, &model, "input", &enc("p2"));
    seed_input(&mut tx, &model, "input", &Packet::Signal(PacketSignal::Done));
    run(&mut tx, &model, 16);
    assert_eq!(tx.outputs.len(), 4);
    assert_eq!(dec(&tx.outputs[0].packet), "p1");
    assert_eq!(tx.outputs[1].packet, Packet::Error("bad".to_string()));
    assert_eq!(dec(&tx.outputs[2].packet), "p2");
    assert_eq!(tx.outputs[3].packet, Packet::Signal(PacketSignal::Done));
    assert!(is_complete(&tx, &model));
}

#[test]
fn cancellation_stops_dispatch() {
    let model = simple_schematic();
    let mut tx = Transaction::new("tx-6".to_string(), &model);
    seed_input(&mut tx, &model, "input", &enc("first"));
    seed_input(&mut tx, &model, "input", &enc("second"));
    seed_input(&mut tx, &model, "input", &enc("third"));
    // the caller reads one packet, then drops the receiver
    step(&mut tx, &model);
    assert_eq!(tx.outputs.len(), 1);
    let dispatched_before = tx.dispatched.len();
    tx.cancel();
    let outputs_before = tx.outputs.len();
    run(&mut tx, &model, 16);
    // no further provider invocations begin, nothing more is emitted,
    // and all buffers are released
    assert_eq!(tx.dispatched.len(), dispatched_before);
    assert_eq!(tx.outputs.len(), outputs_before);
    assert!(tx.buffers.iter().all(|b| b.1.is_empty()));
}

#[test]
fn validation_refuses_bad_graphs() {
    // an endpoint naming an unknown instance
    let def = SchematicDef {
        name: "broken".to_string(),
        instances: vec![inst("a", Operation::Echo)],
        connections: vec![conn("ghost", "output", "a", "input")],
        defaults: vec![],
    };
    assert_eq!(
        validate(def),
        Err(ValidationError::ConnectionEndpointMissing("ghost".to_string()))
    );
    // two inbound connections on one downstream port
    let def = SchematicDef {
        name: "broken".to_string(),
        instances: vec![inst("a", Operation::Echo), inst("b", Operation::Echo)],
        connections: vec![
            conn("<input>", "one", "a", "input"),
            conn("b", "output", "a", "input"),
        ],
        defaults: vec![],
    };
    assert_eq!(validate(def), Err(ValidationError::InvalidModel(1)));
    // a default on an input an upstream already feeds
    let def = SchematicDef {
        name: "broken".to_string(),
        instances: vec![inst("a", Operation::Echo)],
        connections: vec![conn("<input>", "input", "a", "input")],
        defaults: vec![("a".to_string(), "1".to_string())],
    };
    assert_eq!(validate(def), Err(ValidationError::InvalidModel(2)));
    // a default naming an unknown instance
    let def = SchematicDef {
        name: "broken".to_string(),
        instances: vec![inst("a", Operation::Echo)],
        connections: vec![],
        defaults: vec![("ghost".to_string(), "1".to_string())],
    };
    assert_eq!(
        validate(def),
        Err(ValidationError::InstanceNotFound("ghost".to_string()))
    );
}

#[test]
fn test_request_log() {
    let mut network = NetworkService::new();
    network.register_schematic(simple_schematic());
    let user_data = "string to log";
    let inputs = vec![
        PortedPacket { port: "input".to_string(), packet: enc(user_data) },
        PortedPacket {
            port: "input".to_string(),
            packet: Packet::Signal(PacketSignal::Done),
        },
    ];
    let tx = network.request("simple", "tx-7".to_string(), &inputs, 16).unwrap();
    assert_eq!(dec(&tx.outputs[0].packet), user_data);
}

#[test]
fn network_provider_test_list() {
    let mut network = NetworkService::new();
    network.register_schematic(simple_schematic());
    let list = network.list_schematics();
    assert_eq!(list.len(), 1);
    assert_eq!(list[0], "simple");
}

#[test]
fn unknown_schematic_is_refused() {
    let network = NetworkService::new();
    let r = network.request("nowhere", "tx-8".to_string(), &vec![], 4);
    assert_eq!(
        r.err(),
        Some(NetworkError::SchematicNotFound("nowhere".to_string()))
    );
}

#[test]
fn timeout_seals_open_outputs() {
    let model = simple_schematic();
    let mut tx = Transaction::new("tx-9".to_string(), &model);
    seed_input(&mut tx, &model, "input", &enc("slow"));
    run(&mut tx, &model, 4);
    // the upstream never sent Done, so the output port is still open
    assert!(!is_complete(&tx, &model));
    let before = tx.outputs.len();
    flush_timeout(&mut tx, &model);
    // the deadline surfaces a Timeout error and closes the port
    assert!(is_complete(&tx, &model));
    assert_eq!(tx.outputs.len(), before + 2);
    assert_eq!(tx.outputs[before].packet, Packet::Error("Timeout".to_string()));
    assert_eq!(
        tx.outputs[before + 1].packet,
        Packet::Signal(PacketSignal::Done)
    );
    // an expiry on a finished transaction changes nothing
    flush_timeout(&mut tx, &model);
    assert_eq!(tx.outputs.len(), before + 2);
}

#[test]
fn unbalanced_brackets_are_refused() {
    let mut network = NetworkService::new();
    network.register_schematic(simple_schematic());
    // a close without an open on the input port is a fatal framing error
    let inputs = vec![
        PortedPacket {
            port: "input".to_string(),
            packet: Packet::Signal(PacketSignal::CloseBracket),
        },
        PortedPacket { port: "input".to_string(), packet: enc("x") },
    ];
    let r = network.request("simple", "tx-10".to_string(), &inputs, 16);
    assert_eq!(
        r.err(),
        Some(NetworkError::TransportError(TransportError::BracketImbalance))
    );
    // a balanced batch on the same port is accepted
    let inputs = vec![
        PortedPacket {
            port: "input".to_string(),
            packet: Packet::Signal(PacketSignal::OpenBracket),
        },
        PortedPacket { port: "input".to_string(), packet: enc("x") },
        PortedPacket {
            port: "input".to_string(),
            packet: Packet::Signal(PacketSignal::CloseBracket),
        },
        PortedPacket {
            port: "input".to_string(),
            packet: Packet::Signal(PacketSignal::Done),
        },
    ];
    assert!(network.request("simple", "tx-11".to_string(), &inputs, 16).is_ok());
}
