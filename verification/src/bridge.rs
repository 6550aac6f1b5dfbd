//! The guest-output bridge: guest components cannot return streams, so they
//! hand the host framed output calls. Each call names a port and a signal;
//! the frame's first four bytes are the big-endian transaction id and the
//! rest is the payload. The bridge routes the call to the named
//! transaction's buffer, sealing ports on `Done` and refusing writes to a
//! sealed port.

use vstd::prelude::*;
use vstd::string::StringExecFns;

use crate::error::TransportError;
use crate::packet::{Packet, PacketSignal, PacketView, PortedPacket, PortedPacketView};

verus! {

/// The three signals a guest output call can carry.
#[derive(Debug, Clone, Copy, PartialEq, Eq, Structural)]
pub enum OutputSignal {
    /// A packet; the port stays open.
    Output,
    /// A packet, then the port closes.
    OutputDone,
    /// The port closes without a packet.
    Done,
}

/// Parses a guest output signal from its wire name.
pub fn output_signal_from_str(s: &str) -> (r: Option<OutputSignal>)
    ensures
        s@ == "output"@ ==> r == Some(OutputSignal::Output),
        s@ == "output_done"@ ==> r == Some(OutputSignal::OutputDone),
        s@ == "done"@ ==> r == Some(OutputSignal::Done),
        s@ != "output"@ && s@ != "output_done"@ && s@ != "done"@ ==> r is None,
{
    proof {
        reveal_strlit("output");
        reveal_strlit("output_done");
        reveal_strlit("done");
        assert("output"@.len() == 6);
        assert("output_done"@.len() == 11);
        assert("done"@.len() == 4);
    }
    let owned = s.to_owned();
    if owned == String::from_str("output") {
        Some(OutputSignal::Output)
    } else if owned == String::from_str("output_done") {
        Some(OutputSignal::OutputDone)
    } else if owned == String::from_str("done") {
        Some(OutputSignal::Done)
    } else {
        None
    }
}

/// The buffered output state of one live transaction, as the bridge sees
/// it: packets not yet drained by the engine, and the ports already sealed.
#[derive(Debug)]
pub struct Transaction {
    /// Pending ported packets, oldest first.
    pub buffer: Vec<PortedPacket>,
    /// The output ports that have emitted `Done`.
    pub ports: Vec<String>,
}

/// The mathematical value of a transaction's bridge state.
pub struct TransactionView {
    pub buffer: Seq<PortedPacketView>,
    pub ports: Seq<Seq<char>>,
}

impl View for Transaction {
    type V = TransactionView;

    open spec fn view(&self) -> TransactionView {
        TransactionView { buffer: self.buffer.deep_view(), ports: self.ports.deep_view() }
    }
}

/// Whether `port` is already sealed in the transaction.
pub open spec fn port_sealed(t: TransactionView, port: Seq<char>) -> bool {
    exists|i: int| 0 <= i < t.ports.len() && t.ports[i] == port
}

/// Whether `post` is `pre` with the given packets appended in order, all on
/// the one named port: how a guest call extends a transaction's buffer
/// while keeping every earlier packet, and their order, intact.
pub open spec fn buffer_extended(
    pre: Seq<PortedPacketView>,
    post: Seq<PortedPacketView>,
    port: Seq<char>,
    packets: Seq<PacketView>,
) -> bool {
    &&& post.len() == pre.len() + packets.len()
    &&& post.take(pre.len() as int) == pre
    &&& forall|i: int|
        0 <= i < packets.len() ==> post[pre.len() + i].port == port && post[pre.len() + i].packet
            == packets[i]
}

/// How one guest output call relates a transaction's state before and
/// after it: a sealed port refuses the call as a double close and changes
/// nothing; otherwise `Output` buffers the payload, `OutputDone` buffers
/// the payload and then seals the port, and `Done` seals the port alone.
pub open spec fn output_signal_applied(
    pre: TransactionView,
    post: TransactionView,
    port: Seq<char>,
    signal: OutputSignal,
    payload: Seq<u8>,
    r: Result<(), TransportError>,
) -> bool {
    &&& port_sealed(pre, port) ==> (r matches Err(e) && e matches TransportError::DoubleClose(p)
        && p@ == port && post == pre)
    &&& !port_sealed(pre, port) && signal == OutputSignal::Output ==> (r matches Ok(u)
        && buffer_extended(pre.buffer, post.buffer, port, seq![PacketView::Success(payload)])
        && post.ports == pre.ports)
    &&& !port_sealed(pre, port) && signal == OutputSignal::OutputDone ==> (r matches Ok(u)
        && buffer_extended(
        pre.buffer,
        post.buffer,
        port,
        seq![PacketView::Success(payload), PacketView::Signal(PacketSignal::Done)],
    ) && post.ports == pre.ports.push(port))
    &&& !port_sealed(pre, port) && signal == OutputSignal::Done ==> (r matches Ok(u)
        && buffer_extended(pre.buffer, post.buffer, port, seq![PacketView::Signal(PacketSignal::Done)])
        && post.ports == pre.ports.push(port))
}

impl Transaction {
    /// A transaction with nothing buffered and no port sealed.
    pub fn new() -> (r: Transaction)
        ensures
            r@.buffer.len() == 0,
            r@.ports.len() == 0,
    {
        Transaction { buffer: Vec::new(), ports: Vec::new() }
    }

    /// Whether `port` has already emitted `Done`.
    pub fn is_sealed(&self, port: &str) -> (r: bool)
        ensures
            r == port_sealed(self@, port@),
    {
        let owned = port.to_owned();
        let n = self.ports.len();
        for i in 0..n
            invariant
                n == self.ports@.len(),
                owned@ == port@,
                forall|j: int| 0 <= j < i ==> self.ports@[j]@ != port@,
        {
            if self.ports[i] == owned {
                proof {
                    assert(self@.ports[i as int] == self.ports@[i as int]@);
                }
                return true;
            }
        }
        proof {
            assert(forall|j: int| 0 <= j < self.ports@.len() ==> self@.ports[j] == self.ports@[j]@);
        }
        false
    }

    /// Applies one guest output call to the transaction. Once a port has
    /// emitted `Done`, any further call naming it is refused as a double
    /// close and the transaction is left unchanged: `Done` is monotone.
    pub fn handle_output_signal(&mut self, port: &str, signal: OutputSignal, payload: Vec<u8>) -> (r:
        Result<(), TransportError>)
        ensures
            output_signal_applied(old(self)@, final(self)@, port@, signal, payload@, r),
    {
        if self.is_sealed(port) {
            return Err(TransportError::DoubleClose(port.to_owned()));
        }
        match signal {
            OutputSignal::Output => {
                self.buffer.push(
                    PortedPacket { port: port.to_owned(), packet: Packet::Success(payload) },
                );
                proof {
                    assert(self@.buffer.take(old(self)@.buffer.len() as int) =~= old(
                        self,
                    )@.buffer);
                    assert(self@.ports =~= old(self)@.ports);
                }
                Ok(())
            },
            OutputSignal::OutputDone => {
                self.buffer.push(
                    PortedPacket { port: port.to_owned(), packet: Packet::Success(payload) },
                );
                self.buffer.push(
                    PortedPacket {
                        port: port.to_owned(),
                        packet: Packet::Signal(PacketSignal::Done),
                    },
                );
                self.ports.push(port.to_owned());
                proof {
                    assert(self@.buffer.take(old(self)@.buffer.len() as int) =~= old(
                        self,
                    )@.buffer);
                    assert(self@.ports =~= old(self)@.ports.push(port@));
                }
                Ok(())
            },
            OutputSignal::Done => {
                self.buffer.push(
                    PortedPacket {
                        port: port.to_owned(),
                        packet: Packet::Signal(PacketSignal::Done),
                    },
                );
                self.ports.push(port.to_owned());
                proof {
                    assert(self@.buffer.take(old(self)@.buffer.len() as int) =~= old(
                        self,
                    )@.buffer);
                    assert(self@.ports =~= old(self)@.ports.push(port@));
                }
                Ok(())
            },
        }
    }
}

/// The big-endian 32-bit transaction id at the head of a guest output
/// frame.
pub open spec fn be_u32_of(b: Seq<u8>) -> u32
    recommends
        b.len() >= 4,
{
    ((b[0] as int) * 0x1000000 + (b[1] as int) * 0x10000 + (b[2] as int) * 0x100 + (
    b[3] as int)) as u32
}

/// Splits a guest output frame into its transaction id and payload. The
/// guest ABI guarantees the four-byte id prefix.
pub fn parse_frame(bytes: &[u8]) -> (r: (u32, Vec<u8>))
    requires
        bytes@.len() >= 4,
    ensures
        r.0 == be_u32_of(bytes@),
        r.1@ == bytes@.skip(4),
{
    let id: u32 = (bytes[0] as u32) * 0x1000000 + (bytes[1] as u32) * 0x10000 + (bytes[2] as u32)
        * 0x100 + (bytes[3] as u32);
    let mut payload: Vec<u8> = Vec::new();
    payload.extend_from_slice(&bytes[4..bytes.len()]);
    (id, payload)
}

/// Whether the registry holds a transaction under the id.
pub open spec fn has_tx(entries: Seq<(u32, Transaction)>, id: u32) -> bool {
    exists|i: int| 0 <= i < entries.len() && entries[i].0 == id
}

/// The registry of live transactions, keyed by the 32-bit transaction id
/// that guest frames carry. Each entry is owned exclusively by its
/// transaction; a guest call can only ever touch the entry its frame
/// names.
pub struct TxRegistry {
    pub entries: Vec<(u32, Transaction)>,
}

/// A registry is well formed when no id is registered twice.
pub open spec fn registry_wf(entries: Seq<(u32, Transaction)>) -> bool {
    forall|i: int, j: int|
        0 <= i < entries.len() && 0 <= j < entries.len() && i != j ==> entries[i].0 != entries[j].0
}

impl TxRegistry {
    /// An empty registry.
    pub fn new() -> (r: TxRegistry)
        ensures
            r.entries@.len() == 0,
            registry_wf(r.entries@),
    {
        TxRegistry { entries: Vec::new() }
    }

    /// Registers a fresh transaction under `id`; refused if the id is
    /// already live.
    pub fn register(&mut self, id: u32) -> (r: bool)
        requires
            registry_wf(old(self).entries@),
        ensures
            registry_wf(final(self).entries@),
            has_tx(old(self).entries@, id) ==> (!r && *final(self) == *old(self)),
            !has_tx(old(self).entries@, id) ==> (r
                && final(self).entries@.len() == old(self).entries@.len() + 1
                && final(self).entries@.take(old(self).entries@.len() as int) == old(self).entries@
                && final(self).entries@.last().0 == id
                && final(self).entries@.last().1@.buffer.len() == 0
                && final(self).entries@.last().1@.ports.len() == 0),
    {
        let n = self.entries.len();
        for i in 0..n
            invariant
                n == self.entries@.len(),
                *self == *old(self),
                registry_wf(self.entries@),
                forall|j: int| 0 <= j < i ==> self.entries@[j].0 != id,
        {
            if self.entries[i].0 == id {
                return false;
            }
        }
        self.entries.push((id, Transaction::new()));
        proof {
            assert(self.entries@.take(old(self).entries@.len() as int) =~= old(self).entries@);
        }
        true
    }

    /// Applies one framed guest output call: reads the transaction id off
    /// the frame and hands port, signal and payload to that transaction
    /// alone. Every other transaction's state is left untouched, whatever
    /// the named transaction does; a frame naming an id that is not live
    /// is refused and nothing changes.
    pub fn deliver_frame(&mut self, port: &str, signal: OutputSignal, bytes: &[u8]) -> (r: Result<
        (),
        TransportError,
    >)
        requires
            bytes@.len() >= 4,
        ensures
            final(self).entries@.len() == old(self).entries@.len(),
            forall|j: int|
                0 <= j < old(self).entries@.len() && old(self).entries@[j].0 != be_u32_of(bytes@)
                    ==> final(self).entries@[j] == old(self).entries@[j],
            forall|j: int|
                0 <= j < final(self).entries@.len() ==> final(self).entries@[j].0 == old(
                    self,
                ).entries@[j].0,
            forall|j: int|
                0 <= j < old(self).entries@.len() && old(self).entries@[j].0 == be_u32_of(bytes@)
                    && registry_wf(old(self).entries@) ==> output_signal_applied(
                    old(self).entries@[j].1@,
                    final(self).entries@[j].1@,
                    port@,
                    signal,
                    bytes@.skip(4),
                    r,
                ),
            !has_tx(old(self).entries@, be_u32_of(bytes@)) ==> (r matches Err(e) && e
                == TransportError::InvalidTransaction(be_u32_of(bytes@)) && *final(self) == *old(
                self,
            )),
    {
        let (id, payload) = parse_frame(bytes);
        let n = self.entries.len();
        for i in 0..n
            invariant
                n == self.entries@.len(),
                id == be_u32_of(bytes@),
                payload@ == bytes@.skip(4),
                *self == *old(self),
                forall|j: int| 0 <= j < i ==> self.entries@[j].0 != id,
        {
            if self.entries[i].0 == id {
                let mut entry = self.entries.remove(i);
                let r = entry.1.handle_output_signal(port, signal, payload);
                self.entries.insert(i, entry);
                proof {
                    assert(forall|j: int|
                        0 <= j < old(self).entries@.len() && j != i ==> self.entries@[j] == old(
                            self,
                        ).entries@[j]);
                }
                return r;
            }
        }
        Err(TransportError::InvalidTransaction(id))
    }
}

/// No cross-transaction leakage: a guest frame naming one transaction
/// leaves every other registered transaction exactly as it was, so packets
/// produced for one invocation can never surface in another's output,
/// however the two interleave.
pub proof fn lemma_no_cross_transaction_leakage(
    pre: Seq<(u32, Transaction)>,
    post: Seq<(u32, Transaction)>,
    id: u32,
    i: int,
)
    requires
        pre.len() == post.len(),
        forall|j: int| 0 <= j < pre.len() && pre[j].0 != id ==> post[j] == pre[j],
        0 <= i < pre.len(),
        pre[i].0 != id,
    ensures
        post[i] == pre[i],
{
}

/// The log levels a guest may use.
#[derive(Debug, Clone, Copy, PartialEq, Eq, Structural)]
pub enum LogLevel {
    Trace,
    Debug,
    Info,
    Warn,
    Error,
    Mark,
}

/// Handles a guest log call: a known level is handed to the host logger;
/// an unknown level name is refused with its name in the message.
pub fn handle_log_level(level: &str) -> (r: Result<LogLevel, String>)
    ensures
        level@ == "trace"@ ==> r == Ok::<LogLevel, String>(LogLevel::Trace),
        level@ == "debug"@ ==> r == Ok::<LogLevel, String>(LogLevel::Debug),
        level@ == "info"@ ==> r == Ok::<LogLevel, String>(LogLevel::Info),
        level@ == "warn"@ ==> r == Ok::<LogLevel, String>(LogLevel::Warn),
        level@ == "error"@ ==> r == Ok::<LogLevel, String>(LogLevel::Error),
        level@ == "mark"@ ==> r == Ok::<LogLevel, String>(LogLevel::Mark),
        level@ != "trace"@ && level@ != "debug"@ && level@ != "info"@ && level@ != "warn"@
            && level@ != "error"@ && level@ != "mark"@ ==> (r matches Err(m) && m@
            == "Invalid log level: "@ + level@),
{
    proof {
        reveal_strlit("trace");
        reveal_strlit("debug");
        reveal_strlit("info");
        reveal_strlit("warn");
        reveal_strlit("error");
        reveal_strlit("mark");
        assert("trace"@.len() == 5);
        assert("debug"@.len() == 5);
        assert("info"@.len() == 4);
        assert("warn"@.len() == 4);
        assert("error"@.len() == 5);
        assert("mark"@.len() == 4);
        assert("trace"@[0] == 't' && "debug"@[0] == 'd' && "error"@[0] == 'e');
        assert("trace"@ != "debug"@ && "trace"@ != "error"@ && "debug"@ != "error"@);
        assert("info"@[0] == 'i' && "warn"@[0] == 'w' && "mark"@[0] == 'm');
        assert("info"@ != "warn"@ && "info"@ != "mark"@ && "warn"@ != "mark"@);
    }
    let owned = level.to_owned();
    if owned == String::from_str("trace") {
        Ok(LogLevel::Trace)
    } else if owned == String::from_str("debug") {
        Ok(LogLevel::Debug)
    } else if owned == String::from_str("info") {
        Ok(LogLevel::Info)
    } else if owned == String::from_str("warn") {
        Ok(LogLevel::Warn)
    } else if owned == String::from_str("error") {
        Ok(LogLevel::Error)
    } else if owned == String::from_str("mark") {
        Ok(LogLevel::Mark)
    } else {
        let mut msg = String::from_str("Invalid log level: ");
        msg.append(level);
        Err(msg)
    }
}

/// The MessagePack normal form of a packet: JSON text is re-encoded, and
/// everything else is already normal.
pub open spec fn normalised(p: PacketView) -> PacketView {
    match p {
        PacketView::Json(s) => PacketView::Success(crate::codec::string_msgpack_of(s)),
        other => other,
    }
}

/// Normalises one packet to MessagePack.
fn normalise_packet(p: Packet) -> (r: Packet)
    ensures
        r@ == normalised(p@),
{
    match p {
        Packet::Json(s) => Packet::Success(crate::codec::msgpack_encode_string(s.as_str())),
        other => other,
    }
}

/// Handles the answer of a host link call: with no callback installed the
/// call is refused; a callback failure is passed along; and a successful
/// answer has every packet normalised to MessagePack before it goes back
/// over the guest boundary, ports and order kept.
pub fn handle_link_result(answer: Option<Result<Vec<PortedPacket>, String>>) -> (r: Result<
    Vec<PortedPacket>,
    String,
>)
    ensures
        answer is None ==> (r matches Err(m) && m@
            == "Host link called with no callback provided in the WaPC host."@),
        answer matches Some(a) ==> (a matches Err(e) ==> r == Err::<Vec<PortedPacket>, String>(e)),
        answer matches Some(a) ==> (a matches Ok(packets) ==> (r matches Ok(v) && v@.len()
            == packets@.len() && (forall|i: int|
            0 <= i < v@.len() ==> (#[trigger] v@[i]).port@ == packets@[i].port@ && v@[i].packet@
                == normalised(packets@[i].packet@)))),
{
    match answer {
        None => Err(
            String::from_str("Host link called with no callback provided in the WaPC host."),
        ),
        Some(Err(e)) => Err(e),
        Some(Ok(packets)) => {
            let n = packets.len();
            let mut rest = packets;
            let ghost pre = rest@;
            let mut out: Vec<PortedPacket> = Vec::new();
            let mut i: usize = 0;
            while i < n
                invariant
                    n == pre.len(),
                    rest@.len() + i == n,
                    rest@ =~= pre.skip(i as int),
                    out@.len() == i,
                    forall|q: int|
                        0 <= q < i ==> (#[trigger] out@[q]).port@ == pre[q].port@
                            && out@[q].packet@ == normalised(pre[q].packet@),
                decreases n - i,
            {
                let item = rest.remove(0);
                let normal = normalise_packet(item.packet);
                out.push(PortedPacket { port: item.port, packet: normal });
                i = i + 1;
                proof {
                    assert(rest@ =~= pre.skip(i as int));
                }
            }
            Ok(out)
        },
    }
}

} // verus!
