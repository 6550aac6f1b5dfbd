//! Invocation envelopes, entity addressing, options, code generation, the
//! SQL component's decisions, and the component port surfaces.

use vino_runtime::bcrypt;
use vino_runtime::codegen::{expand_type, Config, Dependency, Direction, WickType};
use vino_runtime::dispatch::{resolve_native_output, OutputPayload};
use vino_runtime::entity::{PortEntity, VinoEntity};
use vino_runtime::host::HostBuilder;
use vino_runtime::invocation::{invocation_hash, Invocation, InvocationResponse, MessagePayload};
use vino_runtime::options::{options_from_cli, DefaultCliOptions, LatticeCliOptions};
use vino_runtime::provider::{
    handle_response, list_registered, report_statistics, HostedType, ServiceResponse,
};
use vino_runtime::provider_test;
use vino_runtime::sql::{
    bind_arguments, decide_tick, rows_to_packets, validate, Field, SqlComponentConfig, SqlError,
    SqlOperationDefinition, TickDecision,
};
use vino_runtime::packet::{Packet, PacketSignal, PortedPacket};

#[test]
fn entity_urls_and_keys() {
    let schematic = VinoEntity::Schematic("simple".to_string());
    assert_eq!(schematic.url(), "wasmbus://schematic/simple");
    assert_eq!(schematic.key(), "schematic:simple");

    let component = VinoEntity::Component("logger".to_string());
    assert_eq!(component.url(), "wasmbus://component/logger");
    assert_eq!(component.key(), "component:logger");

    let port = VinoEntity::Port(PortEntity {
        schematic: "simple".to_string(),
        reference: "log".to_string(),
        name: "input".to_string(),
    });
    assert_eq!(port.url(), "wasmbus://simple::input:log");
    assert_eq!(port.key(), "simple::log:input");
}

#[test]
fn hash_of_empty_inputs_is_sha256_of_nothing() {
    // origin, target and payload all empty: the digest is SHA-256 of the
    // empty byte string, in uppercase hex
    let h = invocation_hash("", "", &MessagePayload::MessagePack(vec![]));
    assert_eq!(
        h,
        "E3B0C44298FC1C149AFBF4C8996FB92427AE41E4649B934CA495991B7852B855"
    );
}

#[test]
fn hash_is_deterministic() {
    let payload = MessagePayload::MultiBytes(vec![
        ("a".to_string(), vec![1, 2]),
        ("b".to_string(), vec![3]),
    ]);
    let h1 = invocation_hash("wasmbus://t/op", "wasmbus://o", &payload);
    let h2 = invocation_hash("wasmbus://t/op", "wasmbus://o", &payload);
    assert_eq!(h1, h2);
    assert_eq!(h1.len(), 64);
    // a different payload hashes differently
    let other = MessagePayload::MessagePack(vec![9]);
    assert_ne!(h1, invocation_hash("wasmbus://t/op", "wasmbus://o", &other));
}

#[test]
fn payload_bytes_access() {
    let p = MessagePayload::MessagePack(vec![1, 2, 3]);
    assert_eq!(p.get_bytes(), Ok(vec![1, 2, 3]));
    let p = MessagePayload::Error("x".to_string());
    assert!(p.get_bytes().is_err());
}

#[test]
fn next_invocation_preserves_envelope() {
    let kp = nkeys::KeyPair::new_server();
    let origin = VinoEntity::Schematic("simple".to_string());
    let target = VinoEntity::Component("log".to_string());
    let msg = MessagePayload::MessagePack(vec![5]);
    let inv = Invocation::next("tx-abc", &kp, origin.clone(), target.clone(), "run", msg.clone())
        .unwrap();
    assert_eq!(inv.origin, origin);
    assert_eq!(inv.target, target);
    assert_eq!(inv.operation, "run");
    assert_eq!(inv.msg, msg);
    assert_eq!(inv.tx_id, "tx-abc");
    assert_eq!(inv.id.len(), 36);
    assert_eq!(inv.host_id, kp.public_key());

    // the signed claims bind the invocation hash of the envelope
    let claims =
        wascap::prelude::Claims::<wascap::prelude::Invocation>::decode(&inv.encoded_claims)
            .unwrap();
    let meta = claims.metadata.unwrap();
    let target_url = format!("{}/{}", target.url(), "run");
    assert_eq!(meta.target_url, target_url);
    assert_eq!(meta.origin_url, origin.url());
    assert_eq!(
        meta.invocation_hash,
        invocation_hash(&target_url, &origin.url(), &msg)
    );
}

#[test]
fn fresh_root_invocations_differ() {
    let kp = nkeys::KeyPair::new_server();
    let origin = VinoEntity::Schematic("s".to_string());
    let target = VinoEntity::Component("c".to_string());
    let a = Invocation::new_root(
        &kp,
        origin.clone(),
        target.clone(),
        "op",
        MessagePayload::MessagePack(vec![]),
    )
    .unwrap();
    let b = Invocation::new_root(&kp, origin, target, "op", MessagePayload::MessagePack(vec![]))
        .unwrap();
    assert_eq!(a.tx_id.len(), 36);
    assert_ne!(a.tx_id, b.tx_id);
    assert_ne!(a.id, b.id);
}

#[test]
fn invocation_responses() {
    let ok = InvocationResponse::success("tx-1".to_string(), vec![1, 2]);
    assert_eq!(ok.tx_id, "tx-1");
    assert_eq!(ok.msg, vec![1, 2]);
    let err = InvocationResponse::error("tx-2".to_string(), "broke".to_string());
    assert_eq!(err.tx_id, "tx-2");
    assert_eq!(err.msg, rmp_serde::to_vec("broke").unwrap());
}

#[test]
fn native_output_resolution() {
    let lookup = Some((
        "tx-9".to_string(),
        "simple".to_string(),
        VinoEntity::Component("log".to_string()),
    ));
    let r = resolve_native_output(lookup, "inv-1", "output", OutputPayload::MessagePack(vec![7]))
        .unwrap();
    assert_eq!(r.tx_id, "tx-9");
    assert_eq!(r.port.schematic, "simple");
    assert_eq!(r.port.reference, "log");
    assert_eq!(r.port.name, "output");
    assert_eq!(r.payload, MessagePayload::MessagePack(vec![7]));

    let r = resolve_native_output(None, "inv-2", "output", OutputPayload::Error("x".to_string()));
    assert_eq!(r.unwrap_err().0, "Can not resolve invocation inv-2");

    let lookup = Some((
        "tx".to_string(),
        "simple".to_string(),
        VinoEntity::Schematic("simple".to_string()),
    ));
    let r = resolve_native_output(lookup, "i", "p", OutputPayload::Exception("e".to_string()));
    assert_eq!(
        r.unwrap_err().0,
        "Reference not implemented. wasmbus://schematic/simple"
    );
}

#[test]
fn cli_options_conversion() {
    let opts = DefaultCliOptions {
        id: Some("host-1".to_string()),
        timeout: Some(250),
        lattice: LatticeCliOptions {
            lattice_enabled: true,
            nats_url: Some("127.0.0.1:4222".to_string()),
            nats_credsfile: None,
            nats_token: None,
        },
        rpc_enabled: true,
        rpc_port: Some(8060),
        rpc_address: Some("127.0.0.1".to_string()),
        rpc_pem: None,
        rpc_key: None,
        rpc_ca: None,
        http_enabled: false,
        http_port: None,
        http_address: None,
        http_pem: None,
        http_key: None,
        http_ca: None,
    };
    let o = options_from_cli(opts);
    assert_eq!(o.id, "host-1");
    assert_eq!(o.timeout_millis, 250);
    let rpc = o.rpc.unwrap();
    assert!(rpc.enabled);
    assert_eq!(rpc.port, Some(8060));
    let lattice = o.lattice.unwrap();
    assert!(lattice.enabled);
    assert_eq!(lattice.address, "127.0.0.1:4222");

    let opts = DefaultCliOptions {
        id: None,
        timeout: None,
        lattice: LatticeCliOptions {
            lattice_enabled: false,
            nats_url: None,
            nats_credsfile: None,
            nats_token: None,
        },
        rpc_enabled: false,
        rpc_port: None,
        rpc_address: None,
        rpc_pem: None,
        rpc_key: None,
        rpc_ca: None,
        http_enabled: false,
        http_port: None,
        http_address: None,
        http_pem: None,
        http_key: None,
        http_ca: None,
    };
    let o = options_from_cli(opts);
    assert_eq!(o.id.len(), 36);
    assert_eq!(o.timeout_millis, 5000);
    assert!(o.lattice.is_none());
}

#[test]
fn expand_simple_types() {
    let mut config = Config::new(false);
    let t = expand_type(&mut config, Direction::In, false, &WickType::Bool);
    assert_eq!(t, "bool");
    let t = expand_type(&mut config, Direction::In, false, &WickType::String);
    assert_eq!(t, "String");
    let t = expand_type(&mut config, Direction::In, true, &WickType::Custom("myty".to_string()));
    assert_eq!(t, "myty");
    let t = expand_type(&mut config, Direction::In, false, &WickType::Custom("myty".to_string()));
    assert_eq!(t, "types::myty");
    assert!(config.deps.is_empty());
}

#[test]
fn expand_collects_dependencies() {
    let mut config = Config::new(false);
    let ty = WickType::HashMap {
        key: Box::new(WickType::String),
        value: Box::new(WickType::List { ty: Box::new(WickType::Object) }),
    };
    let t = expand_type(&mut config, Direction::Out, false, &ty);
    assert_eq!(t, "std::collections::HashMap<String,Vec<Value>>");
    assert_eq!(config.deps, vec![Dependency::SerdeJson]);

    let t = expand_type(&mut config, Direction::Out, false, &WickType::Bytes);
    assert_eq!(t, "bytes::Bytes");
    assert_eq!(config.deps, vec![Dependency::SerdeJson, Dependency::Bytes]);
}

#[test]
fn expand_raw_passthrough() {
    let mut config = Config::new(true);
    let t = expand_type(&mut config, Direction::In, false, &WickType::Object);
    assert_eq!(t, "wick_component::packet::Packet");
    assert!(config.deps.is_empty());
    // output positions are unaffected by raw passthrough
    let t = expand_type(&mut config, Direction::Out, false, &WickType::U64);
    assert_eq!(t, "u64");
}

#[test]
fn builds_default() {
    let _h = HostBuilder::new().build();
}

#[test]
fn host_identity_is_its_public_key() {
    let h = HostBuilder::new().build();
    assert_eq!(h.host_id, h.kp.public_key());
    assert!(!h.started);
}

#[test]
fn test_validate() {
    let config = SqlComponentConfig {
        resource: "db".to_string(),
        tls: false,
        operations: vec![SqlOperationDefinition {
            name: "test".to_string(),
            query: "select * from users where user_id = $1;".to_string(),
            inputs: vec![Field { name: "input".to_string(), ty: WickType::I32 }],
            outputs: vec![Field { name: "output".to_string(), ty: WickType::String }],
            arguments: vec!["input".to_string()],
        }],
    };
    let result = validate(&config);
    assert_eq!(result, Err(SqlError::InvalidOutput(vec!["test".to_string()])));

    let config = SqlComponentConfig {
        resource: "db".to_string(),
        tls: false,
        operations: vec![SqlOperationDefinition {
            name: "test".to_string(),
            query: "select * from users where user_id = $1;".to_string(),
            inputs: vec![Field { name: "input".to_string(), ty: WickType::I32 }],
            outputs: vec![Field { name: "output".to_string(), ty: WickType::Object }],
            arguments: vec!["input".to_string()],
        }],
    };
    assert_eq!(validate(&config), Ok(()));
}

#[test]
fn binding_arguments_by_port() {
    let args = vec![
        (WickType::I32, PortedPacket { port: "b".to_string(), packet: Packet::Invalid }),
        (WickType::String, PortedPacket { port: "a".to_string(), packet: Packet::Invalid }),
    ];
    let names = vec!["a".to_string(), "b".to_string()];
    assert_eq!(bind_arguments(&args, &names), Ok(vec![1, 0]));
    let names = vec!["a".to_string(), "missing".to_string()];
    assert_eq!(
        bind_arguments(&args, &names),
        Err(SqlError::MissingInput("missing".to_string()))
    );
}

#[test]
fn tick_decisions() {
    let some = |p: Packet| Some(PortedPacket { port: "input".to_string(), packet: p });
    // every stream ended
    assert_eq!(decide_tick(vec![None, None]), TickDecision::Finished);
    // a partial ending is a missing input
    assert_eq!(
        decide_tick(vec![None, some(Packet::Invalid)]),
        TickDecision::MissingInput
    );
    // an in-band failure surfaces its message
    assert_eq!(
        decide_tick(vec![some(Packet::Error("boom".to_string())), some(Packet::Invalid)]),
        TickDecision::InputError("boom".to_string())
    );
    // a Done finishes the job
    assert_eq!(
        decide_tick(vec![some(Packet::Signal(PacketSignal::Done))]),
        TickDecision::Finished
    );
    // otherwise the operation fires with one packet per input
    let r = decide_tick(vec![some(Packet::Success(vec![1])), some(Packet::Success(vec![2]))]);
    match r {
        TickDecision::Fire(v) => {
            assert_eq!(v.len(), 2);
            assert_eq!(v[0].packet, Packet::Success(vec![1]));
            assert_eq!(v[1].packet, Packet::Success(vec![2]));
        }
        other => panic!("expected a fire decision, got {:?}", other),
    }
}

#[test]
fn statistics_and_hosted_types() {
    let stats = report_statistics(Some("op".to_string()));
    assert_eq!(stats.len(), 1);
    assert_eq!(stats[0].num_calls, 1);
    let stats = report_statistics(None);
    assert_eq!(stats[0].num_calls, 0);

    let hosted = list_registered(vec!["simple".to_string()]);
    assert_eq!(hosted, vec![HostedType::Schematic("simple".to_string())]);
}

#[test]
fn response_handling() {
    let packets = vec![PortedPacket { port: "output".to_string(), packet: Packet::Invalid }];
    assert_eq!(
        handle_response(ServiceResponse::Stream(packets.clone())),
        Ok(packets)
    );
    let r = handle_response(ServiceResponse::Error("nope".to_string()));
    match r {
        Err(vino_runtime::error::NetworkError::ExecutionError(m)) => {
            assert_eq!(m, "Invocation failed: nope");
        }
        other => panic!("expected an execution error, got {:?}", other),
    }
}

#[test]
fn provider_test_component_surface() {
    assert_eq!(provider_test::inputs_list(), vec!["input".to_string()]);
    assert_eq!(provider_test::outputs_list(), vec!["output".to_string()]);

    let encoded = provider_test::InputEncoded { input: rmp_serde::to_vec("hi").unwrap() };
    let inputs = provider_test::deserialize_inputs(encoded).unwrap();
    assert_eq!(inputs.input, "hi");

    let (mut outputs, receiver) = provider_test::get_outputs();
    assert_eq!(receiver.ports, vec!["output".to_string()]);
    outputs.output.send("one");
    outputs.output.done("two");
    let buffer = &outputs.output.port.buffer;
    assert_eq!(buffer.len(), 3);
    assert_eq!(buffer[0], Packet::Success(rmp_serde::to_vec("one").unwrap()));
    assert_eq!(buffer[1], Packet::Success(rmp_serde::to_vec("two").unwrap()));
    assert_eq!(buffer[2], Packet::Signal(PacketSignal::Done));
}

#[test]
fn bcrypt_component_surface() {
    assert_eq!(bcrypt::inputs_list(), vec!["input".to_string(), "cost".to_string()]);
    assert_eq!(bcrypt::outputs_list(), vec!["output".to_string()]);

    let encoded = bcrypt::InputEncoded {
        input: rmp_serde::to_vec("secret").unwrap(),
        cost: rmp_serde::to_vec(&10u32).unwrap(),
    };
    let inputs = bcrypt::deserialize_inputs(encoded).unwrap();
    assert_eq!(inputs.input, "secret");
    assert_eq!(inputs.cost, 10);

    let mut outputs = bcrypt::get_outputs("inv-77".to_string());
    outputs.output.send("hashed");
    outputs.output.exception("no salt".to_string());
    assert_eq!(outputs.output.inv_id, "inv-77");
    assert_eq!(outputs.output.sent.len(), 2);
    assert_eq!(outputs.output.sent[0].0, "output");
    assert_eq!(
        outputs.output.sent[0].1,
        OutputPayload::MessagePack(rmp_serde::to_vec("hashed").unwrap())
    );
    assert_eq!(
        outputs.output.sent[1].1,
        OutputPayload::Exception("no salt".to_string())
    );
}

#[test]
fn query_rows_become_output_packets() {
    // every fetched row, then exactly one Done
    let rows = vec![
        Ok("{\"id\":1}".to_string()),
        Ok("{\"id\":2}".to_string()),
    ];
    let packets = rows_to_packets(rows);
    assert_eq!(packets.len(), 3);
    assert!(packets.iter().all(|p| p.port == "output"));
    assert_eq!(packets[0].packet, Packet::Json("{\"id\":1}".to_string()));
    assert_eq!(packets[1].packet, Packet::Json("{\"id\":2}".to_string()));
    assert_eq!(packets[2].packet, Packet::Signal(PacketSignal::Done));

    // a fetch failure ends the rows in-band, and Done still closes the port
    let rows = vec![
        Ok("{\"id\":1}".to_string()),
        Err("connection reset".to_string()),
        Ok("{\"id\":3}".to_string()),
    ];
    let packets = rows_to_packets(rows);
    assert_eq!(packets.len(), 3);
    assert_eq!(packets[0].packet, Packet::Json("{\"id\":1}".to_string()));
    assert_eq!(packets[1].packet, Packet::Error("connection reset".to_string()));
    assert_eq!(packets[2].packet, Packet::Signal(PacketSignal::Done));

    // no rows at all still terminates the stream
    let packets = rows_to_packets(vec![]);
    assert_eq!(packets.len(), 1);
    assert_eq!(packets[0].packet, Packet::Signal(PacketSignal::Done));
}
