//! The packet model: the tagged payload variants that flow on every port,
//! and the port-tagged wrapper that carries them through a schematic.

use vstd::prelude::*;

use crate::error::TransportError;

verus! {

/// The end-of-stream and batching signals a port can carry.
#[derive(Debug, Clone, Copy, PartialEq, Eq, Structural)]
pub enum PacketSignal {
    /// The port is finished; no further packets are valid on it.
    Done,
    /// Opens a logical batch within the port's stream.
    OpenBracket,
    /// Closes a logical batch within the port's stream.
    CloseBracket,
}

/// A tagged value flowing on a single port.
#[derive(Debug, Clone, PartialEq, Eq)]
pub enum Packet {
    /// A successful payload, opaque self-describing bytes.
    Success(Vec<u8>),
    /// A successful payload carried as JSON text.
    Json(String),
    /// A recoverable in-band failure on this port.
    Error(String),
    /// An exceptional in-band failure on this port.
    Exception(String),
    /// An out-of-band signal: end of stream or bracket.
    Signal(PacketSignal),
    /// A payload that could not be interpreted at all.
    Invalid,
}

impl Packet {
    /// Whether this packet closes its port.
    pub fn is_done(&self) -> (r: bool)
        ensures
            r == (*self == Packet::Signal(PacketSignal::Done)),
    {
        match self {
            Packet::Signal(s) => match s {
                PacketSignal::Done => true,
                _ => false,
            },
            _ => false,
        }
    }
}

/// The mathematical value of a packet: payloads as byte and character
/// sequences.
pub enum PacketView {
    Success(Seq<u8>),
    Json(Seq<char>),
    Error(Seq<char>),
    Exception(Seq<char>),
    Signal(PacketSignal),
    Invalid,
}

impl View for Packet {
    type V = PacketView;

    open spec fn view(&self) -> PacketView {
        match self {
            Packet::Success(b) => PacketView::Success(b@),
            Packet::Json(s) => PacketView::Json(s@),
            Packet::Error(s) => PacketView::Error(s@),
            Packet::Exception(s) => PacketView::Exception(s@),
            Packet::Signal(s) => PacketView::Signal(*s),
            Packet::Invalid => PacketView::Invalid,
        }
    }
}

impl DeepView for Packet {
    type V = PacketView;

    open spec fn deep_view(&self) -> PacketView {
        self.view()
    }
}

/// A packet tagged with the port it flows on. Ordering within a single
/// port is preserved end-to-end.
#[derive(Debug, Clone, PartialEq, Eq)]
pub struct PortedPacket {
    pub port: String,
    pub packet: Packet,
}

/// The mathematical value of a ported packet.
pub struct PortedPacketView {
    pub port: Seq<char>,
    pub packet: PacketView,
}

impl View for PortedPacket {
    type V = PortedPacketView;

    open spec fn view(&self) -> PortedPacketView {
        PortedPacketView { port: self.port@, packet: self.packet@ }
    }
}

impl DeepView for PortedPacket {
    type V = PortedPacketView;

    open spec fn deep_view(&self) -> PortedPacketView {
        self.view()
    }
}

/// A `Done` packet for the given port.
pub fn done(port: String) -> (r: PortedPacket)
    ensures
        r.port == port,
        r.packet == Packet::Signal(PacketSignal::Done),
{
    PortedPacket { port, packet: Packet::Signal(PacketSignal::Done) }
}


/// How one packet changes the bracket nesting depth of its port's stream.
pub open spec fn bracket_delta(p: PacketView) -> int {
    match p {
        PacketView::Signal(PacketSignal::OpenBracket) => 1,
        PacketView::Signal(PacketSignal::CloseBracket) => -1,
        _ => 0,
    }
}

/// The bracket nesting depth after a stream of packets.
pub open spec fn bracket_depth(ps: Seq<PacketView>) -> int
    decreases ps.len(),
{
    if ps.len() == 0 {
        0
    } else {
        bracket_depth(ps.drop_last()) + bracket_delta(ps.last())
    }
}

/// Whether a port's stream frames its brackets correctly: the depth never
/// goes negative and every opened bracket is closed.
pub open spec fn brackets_balanced(ps: Seq<PacketView>) -> bool {
    &&& bracket_depth(ps) == 0
    &&& forall|i: int| 0 <= i <= ps.len() ==> bracket_depth(#[trigger] ps.take(i)) >= 0
}

/// Checks a port's stream for bracket balance: a balanced stream passes,
/// and any imbalance is the fatal framing error.
pub fn check_brackets(packets: &Vec<Packet>) -> (r: Result<(), TransportError>)
    ensures
        r is Ok <==> brackets_balanced(packets.deep_view()),
        r matches Err(e) ==> e == TransportError::BracketImbalance,
{
    let ghost ps = packets.deep_view();
    let n = packets.len();
    let mut depth: usize = 0;
    for i in 0..n
        invariant
            n == ps.len(),
            ps == packets.deep_view(),
            n == packets@.len(),
            depth <= i,
            depth as int == bracket_depth(ps.take(i as int)),
            forall|j: int| 0 <= j <= i ==> bracket_depth(#[trigger] ps.take(j)) >= 0,
    {
        proof {
            assert(ps[i as int] == packets@[i as int].deep_view());
            assert(ps.take(i + 1).drop_last() =~= ps.take(i as int));
            assert(ps.take(i + 1).last() == ps[i as int]);
        }
        match &packets[i] {
            Packet::Signal(PacketSignal::OpenBracket) => {
                depth = depth + 1;
            },
            Packet::Signal(PacketSignal::CloseBracket) => {
                if depth == 0 {
                    proof {
                        assert(bracket_depth(ps.take(i + 1)) == -1);
                    }
                    return Err(TransportError::BracketImbalance);
                }
                depth = depth - 1;
            },
            _ => {},
        }
    }
    proof {
        assert(ps.take(n as int) =~= ps);
    }
    if depth != 0 {
        return Err(TransportError::BracketImbalance);
    }
    Ok(())
}

/// Copies a packet, payload and all.
pub(crate) fn duplicate_packet(p: &Packet) -> (r: Packet)
    ensures
        r@ == p@,
{
    match p {
        Packet::Success(b) => {
            let mut c: Vec<u8> = Vec::new();
            c.extend_from_slice(b.as_slice());
            proof {
                assert(c@ =~= b@);
            }
            Packet::Success(c)
        },
        Packet::Json(s) => Packet::Json(s.clone()),
        Packet::Error(s) => Packet::Error(s.clone()),
        Packet::Exception(s) => Packet::Exception(s.clone()),
        Packet::Signal(sig) => Packet::Signal(*sig),
        Packet::Invalid => Packet::Invalid,
    }
}

/// The packets a payload carries on one port, in arrival order.
pub open spec fn stream_of(inputs: Seq<PortedPacketView>, port: Seq<char>) -> Seq<PacketView>
    decreases inputs.len(),
{
    if inputs.len() == 0 {
        Seq::empty()
    } else {
        let rest = stream_of(inputs.drop_first(), port);
        if inputs[0].port == port {
            seq![inputs[0].packet] + rest
        } else {
            rest
        }
    }
}

/// Whether every port's stream within a payload frames its brackets
/// correctly.
pub open spec fn streams_balanced(inputs: Seq<PortedPacketView>) -> bool {
    forall|p: Seq<char>| brackets_balanced(#[trigger] stream_of(inputs, p))
}

proof fn lemma_stream_take_step(inputs: Seq<PortedPacketView>, port: Seq<char>, i: int)
    requires
        0 <= i < inputs.len(),
    ensures
        stream_of(inputs.take(i + 1), port) == stream_of(inputs.take(i), port) + (if inputs[i].port
            == port {
            seq![inputs[i].packet]
        } else {
            Seq::<PacketView>::empty()
        }),
    decreases i,
{
    if i == 0 {
        assert(inputs.take(1).len() == 1);
        assert(inputs.take(1)[0] == inputs[0]);
        assert(inputs.take(1).drop_first() =~= Seq::<PortedPacketView>::empty());
        assert(inputs.take(0) =~= Seq::<PortedPacketView>::empty());
        assert(stream_of(inputs.take(1).drop_first(), port) == Seq::<PacketView>::empty());
        assert(stream_of(inputs.take(0), port) == Seq::<PacketView>::empty());
        if inputs[0].port == port {
            assert(stream_of(inputs.take(1), port) =~= seq![inputs[0].packet]);
            assert(stream_of(inputs.take(0), port) + seq![inputs[0].packet] =~= seq![
                inputs[0].packet,
            ]);
        } else {
            assert(stream_of(inputs.take(1), port) =~= Seq::<PacketView>::empty());
            assert(stream_of(inputs.take(0), port) + Seq::<PacketView>::empty()
                =~= Seq::<PacketView>::empty());
        }
    } else {
        lemma_stream_take_step(inputs.drop_first(), port, i - 1);
        assert(inputs.take(i + 1)[0] == inputs[0]);
        assert(inputs.take(i)[0] == inputs[0]);
        assert(inputs.take(i + 1).drop_first() =~= inputs.drop_first().take(i));
        assert(inputs.take(i).drop_first() =~= inputs.drop_first().take(i - 1));
        assert(inputs.drop_first()[i - 1] == inputs[i]);
        if inputs[0].port == port {
            assert(stream_of(inputs.take(i + 1), port) =~= seq![inputs[0].packet] + stream_of(
                inputs.drop_first().take(i),
                port,
            ));
            assert(stream_of(inputs.take(i), port) =~= seq![inputs[0].packet] + stream_of(
                inputs.drop_first().take(i - 1),
                port,
            ));
            assert(stream_of(inputs.take(i), port) + (if inputs[i].port == port {
                seq![inputs[i].packet]
            } else {
                Seq::<PacketView>::empty()
            }) =~= stream_of(inputs.take(i + 1), port));
        } else {
            assert(stream_of(inputs.take(i + 1), port) == stream_of(
                inputs.drop_first().take(i),
                port,
            ));
            assert(stream_of(inputs.take(i), port) == stream_of(
                inputs.drop_first().take(i - 1),
                port,
            ));
            assert(stream_of(inputs.take(i), port) + (if inputs[i].port == port {
                seq![inputs[i].packet]
            } else {
                Seq::<PacketView>::empty()
            }) =~= stream_of(inputs.take(i + 1), port));
        }
    }
}

proof fn lemma_stream_nonempty_has_index(inputs: Seq<PortedPacketView>, port: Seq<char>)
    requires
        stream_of(inputs, port).len() > 0,
    ensures
        exists|k: int| 0 <= k < inputs.len() && (#[trigger] inputs[k]).port == port,
    decreases inputs.len(),
{
    if inputs.len() > 0 {
        if inputs[0].port == port {
            assert(inputs[0].port == port);
        } else {
            lemma_stream_nonempty_has_index(inputs.drop_first(), port);
            let k = choose|k: int|
                0 <= k < inputs.drop_first().len() && (#[trigger] inputs.drop_first()[k]).port
                    == port;
            assert(inputs[k + 1].port == port);
        }
    }
}

proof fn lemma_least_occurrence(inputs: Seq<PortedPacketView>, port: Seq<char>, k: int)
    requires
        0 <= k < inputs.len(),
        inputs[k].port == port,
    ensures
        exists|k0: int|
            0 <= k0 <= k && (#[trigger] inputs[k0]).port == port && (forall|j: int|
                0 <= j < k0 ==> inputs[j].port != port),
    decreases k,
{
    if forall|j: int| 0 <= j < k ==> (#[trigger] inputs[j]).port != port {
        assert(inputs[k].port == port && (forall|j: int| 0 <= j < k ==> inputs[j].port != port));
    } else {
        let j = choose|j: int| 0 <= j < k && (#[trigger] inputs[j]).port == port;
        lemma_least_occurrence(inputs, port, j);
    }
}

/// Collects the packets a payload carries on one port, in order.
fn collect_stream(inputs: &Vec<PortedPacket>, port: &String) -> (r: Vec<Packet>)
    ensures
        r.deep_view() == stream_of(inputs.deep_view(), port@),
{
    let ghost all = inputs.deep_view();
    let mut out: Vec<Packet> = Vec::new();
    let n = inputs.len();
    for k in 0..n
        invariant
            n == inputs@.len(),
            all == inputs.deep_view(),
            out.deep_view() == stream_of(all.take(k as int), port@),
    {
        proof {
            lemma_stream_take_step(all, port@, k as int);
            assert(all[k as int] == inputs@[k as int].deep_view());
        }
        if inputs[k].port == *port {
            out.push(duplicate_packet(&inputs[k].packet));
            proof {
                assert(out.deep_view() =~= stream_of(all.take(k + 1), port@));
            }
        } else {
            proof {
                assert(out.deep_view() =~= stream_of(all.take(k + 1), port@));
            }
        }
    }
    proof {
        assert(all.take(n as int) =~= all);
    }
    out
}

/// Checks a whole payload for bracket balance, port by port: it passes
/// exactly when every port's stream is balanced, and any imbalance is the
/// fatal framing error.
pub fn check_port_streams(inputs: &Vec<PortedPacket>) -> (r: Result<(), TransportError>)
    ensures
        r is Ok <==> streams_balanced(inputs.deep_view()),
        r matches Err(e) ==> e == TransportError::BracketImbalance,
{
    let ghost all = inputs.deep_view();
    let n = inputs.len();
    for k in 0..n
        invariant
            n == inputs@.len(),
            all == inputs.deep_view(),
            forall|q: int|
                0 <= q < k && (forall|j: int| 0 <= j < q ==> all[j].port != (#[trigger] all[q]).port)
                    ==> brackets_balanced(stream_of(all, all[q].port)),
    {
        proof {
            assert(all[k as int] == inputs@[k as int].deep_view());
        }
        let mut seen = false;
        for j in 0..k
            invariant
                k < n,
                n == inputs@.len(),
                all == inputs.deep_view(),
                seen ==> exists|j0: int| 0 <= j0 < k && (#[trigger] all[j0]).port == all[k as int].port,
                !seen ==> (forall|j0: int| 0 <= j0 < j ==> (#[trigger] all[j0]).port != all[k as int].port),
        {
            proof {
                assert(all[j as int] == inputs@[j as int].deep_view());
            }
            if inputs[j].port == inputs[k].port {
                seen = true;
            }
        }
        if !seen {
            let stream = collect_stream(inputs, &inputs[k].port);
            if check_brackets(&stream).is_err() {
                proof {
                    assert(!brackets_balanced(stream_of(all, all[k as int].port)));
                }
                return Err(TransportError::BracketImbalance);
            }
        }
    }
    proof {
        assert forall|p: Seq<char>| brackets_balanced(#[trigger] stream_of(all, p)) by {
            if stream_of(all, p).len() == 0 {
                assert(bracket_depth(stream_of(all, p)) == 0);
                assert forall|i: int|
                    0 <= i <= stream_of(all, p).len() implies bracket_depth(
                    #[trigger] stream_of(all, p).take(i)) >= 0 by {
                    assert(stream_of(all, p).take(i) =~= Seq::<PacketView>::empty());
                }
            } else {
                lemma_stream_nonempty_has_index(all, p);
                let k = choose|k: int| 0 <= k < all.len() && (#[trigger] all[k]).port == p;
                lemma_least_occurrence(all, p, k);
                let k0 = choose|k0: int|
                    0 <= k0 <= k && (#[trigger] all[k0]).port == p && (forall|j: int|
                        0 <= j < k0 ==> all[j].port != p);
                assert(brackets_balanced(stream_of(all, all[k0].port)));
            }
        }
    }
    Ok(())
}

} // verus!
