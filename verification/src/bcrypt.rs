//! The bcrypt native component's generated surface: inputs decoded from
//! per-port MessagePack blobs, and a guest port that reports its output
//! back through the host, tagged with the invocation id.

use vstd::prelude::*;
use vstd::string::StringExecFns;

use crate::codec::{
    msgpack_decode_string, msgpack_decode_u32, msgpack_encode_string, string_msgpack_of,
    u32_msgpack_of,
};
use crate::dispatch::OutputPayload;

verus! {

/// The decoded inputs of the operation: the text to hash and the cost
/// factor.
#[derive(Debug, PartialEq, Eq, Clone)]
pub struct Inputs {
    pub input: String,
    pub cost: u32,
}

/// The operation's input port names.
pub fn inputs_list() -> (r: Vec<String>)
    ensures
        r.deep_view() =~= seq!["input"@, "cost"@],
{
    let mut v: Vec<String> = Vec::new();
    v.push(String::from_str("input"));
    v.push(String::from_str("cost"));
    proof {
        assert(v.deep_view() =~= seq!["input"@, "cost"@]);
    }
    v
}

/// The operation's output port names.
pub fn outputs_list() -> (r: Vec<String>)
    ensures
        r.deep_view() =~= seq!["output"@],
{
    let mut v: Vec<String> = Vec::new();
    v.push(String::from_str("output"));
    proof {
        assert(v.deep_view() =~= seq!["output"@]);
    }
    v
}

/// The operation's inputs as they arrive on the wire.
#[derive(Debug, PartialEq, Eq, Clone)]
pub struct InputEncoded {
    pub input: Vec<u8>,
    pub cost: Vec<u8>,
}

/// Decodes the wire inputs: whatever string and cost the two blobs
/// encode are the decoded inputs.
pub fn deserialize_inputs(args: InputEncoded) -> (r: Result<Inputs, String>)
    ensures
        forall|s: Seq<char>, c: u32|
            (args.input@ == #[trigger] string_msgpack_of(s) && args.cost@
                == #[trigger] u32_msgpack_of(c)) ==> (r matches Ok(inputs) && inputs.input@ == s
                && inputs.cost == c),
{
    let input = match msgpack_decode_string(args.input.as_slice()) {
        Ok(s) => s,
        Err(m) => {
            return Err(m);
        },
    };
    let cost = match msgpack_decode_u32(args.cost.as_slice()) {
        Ok(c) => c,
        Err(m) => {
            return Err(m);
        },
    };
    Ok(Inputs { input, cost })
}

/// The guest-side sender for one output port: what the component reports
/// is collected here, tagged with the invocation id, for the host
/// callback to forward.
#[derive(Debug)]
pub struct GuestPortOutput {
    pub inv_id: String,
    pub sent: Vec<(String, OutputPayload)>,
}

impl GuestPortOutput {
    /// Reports one encoded value on the `output` port.
    pub fn send(&mut self, payload: &str)
        ensures
            final(self).inv_id == old(self).inv_id,
            final(self).sent@.len() == old(self).sent@.len() + 1,
            final(self).sent@.take(old(self).sent@.len() as int) == old(self).sent@,
            final(self).sent@.last().0@ == "output"@,
            final(self).sent@.last().1 matches OutputPayload::MessagePack(b) && b@
                == string_msgpack_of(payload@),
    {
        self.sent.push(
            (String::from_str("output"), OutputPayload::MessagePack(msgpack_encode_string(payload))),
        );
        proof {
            assert(self.sent@.take(old(self).sent@.len() as int) =~= old(self).sent@);
        }
    }

    /// Reports an exception on the `output` port.
    pub fn exception(&mut self, message: String)
        ensures
            final(self).inv_id == old(self).inv_id,
            final(self).sent@.len() == old(self).sent@.len() + 1,
            final(self).sent@.take(old(self).sent@.len() as int) == old(self).sent@,
            final(self).sent@.last().0@ == "output"@,
            final(self).sent@.last().1 == OutputPayload::Exception(message),
    {
        self.sent.push((String::from_str("output"), OutputPayload::Exception(message)));
        proof {
            assert(self.sent@.take(old(self).sent@.len() as int) =~= old(self).sent@);
        }
    }
}

/// The operation's output ports.
#[derive(Debug)]
pub struct Outputs {
    pub output: GuestPortOutput,
}

/// Fresh guest output ports for one invocation.
pub fn get_outputs(inv_id: String) -> (r: Outputs)
    ensures
        r.output.inv_id == inv_id,
        r.output.sent@.len() == 0,
{
    Outputs { output: GuestPortOutput { inv_id, sent: Vec::new() } }
}

} // verus!
