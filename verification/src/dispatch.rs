//! Host callbacks from running components: a guest or native component
//! reports output under its invocation id; the host resolves that id to a
//! live transaction and a component reference, and turns the report into a
//! routable message. The registry lookup itself is asynchronous work at the
//! host's edge; the resolution decision is here.

use vstd::prelude::*;
use vstd::string::StringExecFns;

use crate::entity::{url_chars, PortEntity, VinoEntity};
use crate::error::InvocationError;
use crate::invocation::MessagePayload;

verus! {

/// The payload a native component hands back through the host callback.
#[derive(Debug, Clone, PartialEq, Eq)]
pub enum OutputPayload {
    MessagePack(Vec<u8>),
    Exception(String),
    Error(String),
}

/// An output report resolved against the invocation registry, ready to be
/// routed onto the graph.
#[derive(Debug, Clone, PartialEq, Eq)]
pub struct OutputReady {
    pub port: PortEntity,
    pub tx_id: String,
    pub payload: MessagePayload,
}

/// A raw guest output report resolved against the invocation registry.
#[derive(Debug, Clone, PartialEq, Eq)]
pub struct WapcOutputReady {
    pub port: PortEntity,
    pub tx_id: String,
    pub payload: Vec<u8>,
}

/// The message payload a native output payload converts to.
pub open spec fn converted_payload(p: OutputPayload) -> MessagePayload {
    match p {
        OutputPayload::MessagePack(b) => MessagePayload::MessagePack(b),
        OutputPayload::Exception(s) => MessagePayload::Exception(s),
        OutputPayload::Error(s) => MessagePayload::Error(s),
    }
}

/// Resolves a native component's output report. The registry's answer for
/// the invocation id is handed in: no answer means the invocation cannot
/// be resolved, and only a component reference can receive output.
pub fn resolve_native_output(
    lookup: Option<(String, String, VinoEntity)>,
    inv_id: &str,
    port: &str,
    payload: OutputPayload,
) -> (r: Result<OutputReady, InvocationError>)
    ensures
        lookup is None ==> (r matches Err(e) && e.0@ == "Can not resolve invocation "@ + inv_id@),
        lookup matches Some(t) ==> (t.2 matches VinoEntity::Component(reference) ==> (r matches
        Ok(o) && o.tx_id == t.0 && o.port.schematic == t.1 && o.port.reference == reference
            && o.port.name@ == port@ && o.payload == converted_payload(payload))),
        lookup matches Some(t) ==> (t.2 is Component || (r matches Err(e) && e.0@
            == "Reference not implemented. "@ + url_chars(t.2))),
{
    match lookup {
        Some((tx_id, schematic, entity)) => match entity {
            VinoEntity::Component(reference) => Ok(
                OutputReady {
                    port: PortEntity { name: port.to_owned(), reference, schematic },
                    tx_id,
                    payload: match payload {
                        OutputPayload::MessagePack(b) => MessagePayload::MessagePack(b),
                        OutputPayload::Exception(s) => MessagePayload::Exception(s),
                        OutputPayload::Error(s) => MessagePayload::Error(s),
                    },
                },
            ),
            ent => {
                let mut msg = String::from_str("Reference not implemented. ");
                msg.append(ent.url().as_str());
                Err(InvocationError(msg))
            },
        },
        None => {
            let mut msg = String::from_str("Can not resolve invocation ");
            msg.append(inv_id);
            Err(InvocationError(msg))
        },
    }
}

/// Resolves a guest component's raw output report, keeping the payload
/// bytes as they came off the guest boundary.
pub fn resolve_wapc_output(
    lookup: Option<(String, String, VinoEntity)>,
    inv_id: &str,
    port: &str,
    payload: Vec<u8>,
) -> (r: Result<WapcOutputReady, InvocationError>)
    ensures
        lookup is None ==> (r matches Err(e) && e.0@ == "Can not resolve invocation "@ + inv_id@),
        lookup matches Some(t) ==> (t.2 matches VinoEntity::Component(reference) ==> (r matches
        Ok(o) && o.tx_id == t.0 && o.port.schematic == t.1 && o.port.reference == reference
            && o.port.name@ == port@ && o.payload == payload)),
        lookup matches Some(t) ==> (t.2 is Component || (r matches Err(e) && e.0@
            == "Reference not implemented. "@ + url_chars(t.2))),
{
    match lookup {
        Some((tx_id, schematic, entity)) => match entity {
            VinoEntity::Component(reference) => Ok(
                WapcOutputReady {
                    port: PortEntity { name: port.to_owned(), reference, schematic },
                    tx_id,
                    payload,
                },
            ),
            ent => {
                let mut msg = String::from_str("Reference not implemented. ");
                msg.append(ent.url().as_str());
                Err(InvocationError(msg))
            },
        },
        None => {
            let mut msg = String::from_str("Can not resolve invocation ");
            msg.append(inv_id);
            Err(InvocationError(msg))
        },
    }
}

} // verus!
