//! The test provider's generated component surface: a single operation
//! that reads one `input` port and writes one `output` port, with the
//! port buffers it sends through.

use vstd::prelude::*;
use vstd::string::StringExecFns;

use crate::codec::{msgpack_decode_string, msgpack_encode_string, string_msgpack_of};
use crate::packet::{Packet, PacketSignal, PacketView};

verus! {

/// The decoded inputs of the operation.
#[derive(Debug, PartialEq, Eq, Clone)]
pub struct Inputs {
    pub input: String,
}

/// The operation's input port names.
pub fn inputs_list() -> (r: Vec<String>)
    ensures
        r.deep_view() =~= seq!["input"@],
{
    let mut v: Vec<String> = Vec::new();
    v.push(String::from_str("input"));
    proof {
        assert(v.deep_view() =~= seq!["input"@]);
    }
    v
}

/// The operation's inputs as they arrive on the wire, one MessagePack
/// blob per port.
#[derive(Debug, PartialEq, Eq, Clone)]
pub struct InputEncoded {
    pub input: Vec<u8>,
}

/// Decodes the wire inputs: whatever string the `input` blob encodes is
/// the decoded input.
pub fn deserialize_inputs(args: InputEncoded) -> (r: Result<Inputs, String>)
    ensures
        forall|s: Seq<char>|
            args.input@ == string_msgpack_of(s) ==> (r matches Ok(inputs) && inputs.input@ == s),
{
    match msgpack_decode_string(args.input.as_slice()) {
        Ok(input) => Ok(Inputs { input }),
        Err(m) => Err(m),
    }
}

/// A buffered output port.
#[derive(Debug)]
pub struct Port {
    pub name: String,
    pub buffer: Vec<Packet>,
}

impl Port {
    /// An empty port with the given name.
    pub fn new(name: &str) -> (r: Port)
        ensures
            r.name@ == name@,
            r.buffer@.len() == 0,
    {
        Port { name: name.to_owned(), buffer: Vec::new() }
    }
}

/// The sender side of the operation's one output port.
#[derive(Debug)]
pub struct OutputSender {
    pub port: Port,
}

impl Default for OutputSender {
    /// A sender for a fresh, empty `output` port.
    fn default() -> (r: Self)
        ensures
            r.port.name@ == "output"@,
            r.port.buffer@.len() == 0,
    {
        OutputSender { port: Port::new("output") }
    }
}

impl OutputSender {
    /// Buffers one encoded value on the port.
    pub fn send(&mut self, payload: &str)
        ensures
            final(self).port.name == old(self).port.name,
            final(self).port.buffer.deep_view() == old(self).port.buffer.deep_view().push(
                PacketView::Success(string_msgpack_of(payload@)),
            ),
    {
        self.port.buffer.push(Packet::Success(msgpack_encode_string(payload)));
        proof {
            assert(self.port.buffer.deep_view() =~= old(self).port.buffer.deep_view().push(
                PacketView::Success(string_msgpack_of(payload@)),
            ));
        }
    }

    /// Buffers one encoded value and closes the port.
    pub fn done(&mut self, payload: &str)
        ensures
            final(self).port.name == old(self).port.name,
            final(self).port.buffer.deep_view() == old(self).port.buffer.deep_view().push(
                PacketView::Success(string_msgpack_of(payload@)),
            ).push(PacketView::Signal(PacketSignal::Done)),
    {
        self.port.buffer.push(Packet::Success(msgpack_encode_string(payload)));
        self.port.buffer.push(Packet::Signal(PacketSignal::Done));
        proof {
            assert(self.port.buffer.deep_view() =~= old(self).port.buffer.deep_view().push(
                PacketView::Success(string_msgpack_of(payload@)),
            ).push(PacketView::Signal(PacketSignal::Done)));
        }
    }
}

/// The operation's output ports.
#[derive(Debug)]
pub struct Outputs {
    pub output: OutputSender,
}

/// The operation's output port names.
pub fn outputs_list() -> (r: Vec<String>)
    ensures
        r.deep_view() =~= seq!["output"@],
{
    let mut v: Vec<String> = Vec::new();
    v.push(String::from_str("output"));
    proof {
        assert(v.deep_view() =~= seq!["output"@]);
    }
    v
}

/// The names of the ports the receiver side will drain.
#[derive(Debug)]
pub struct Receiver {
    pub ports: Vec<String>,
}

/// Fresh output ports for one job, with the receiver that will drain
/// them.
pub fn get_outputs() -> (r: (Outputs, Receiver))
    ensures
        r.0.output.port.name@ == "output"@,
        r.0.output.port.buffer@.len() == 0,
        r.1.ports.deep_view() =~= seq!["output"@],
{
    let outputs = Outputs { output: OutputSender::default() };
    let receiver = Receiver { ports: outputs_list() };
    (outputs, receiver)
}

} // verus!
