//! A port-oriented dataflow runtime core: packets flowing on named ports,
//! signed invocation envelopes, validated schematic graphs, and the
//! per-invocation transaction engine that routes packets between them.

pub mod bcrypt;
pub mod bridge;
pub mod codec;
pub mod codegen;
pub mod dispatch;
pub mod engine;
pub mod entity;
pub mod error;
pub mod hash;
pub mod host;
pub mod invocation;
pub mod network;
pub mod options;
pub mod packet;
pub mod provider;
pub mod provider_test;
pub mod schematic;
pub mod signing;
pub mod sql;
pub mod wire;
