//! The transaction engine: the per-invocation state machine that buffers
//! packets per instance, fires ready instances in a deterministic order,
//! routes their outputs along the schematic's connections, propagates
//! `Done`, and feeds the caller's output channel.
//!
//! Ordering guarantees: within a single port, FIFO — every queue is
//! appended at the back and consumed at the front, and routing appends to
//! each target in connection order. Cancellation releases every buffer and
//! stops all further dispatch.

use vstd::prelude::*;
use vstd::string::StringExecFns;

use crate::codec::{bytes_msgpack_of, msgpack_decode_bytes, msgpack_encode_bytes};
use crate::packet::{duplicate_packet, Packet, PacketSignal, PacketView, PortedPacket, PortedPacketView};
use crate::schematic::{ConnectionDef, Operation, SchematicDef, SchematicModel};

verus! {

/// The running state of one schematic invocation.
#[derive(Debug)]
pub struct Transaction {
    /// The transaction id all child invocations inherit.
    pub tx_id: String,
    /// One FIFO input queue per instance, in instance-definition order.
    pub buffers: Vec<(String, Vec<Packet>)>,
    /// The caller's output channel: packets for the schematic's output
    /// ports, oldest first.
    pub outputs: Vec<PortedPacket>,
    /// The schematic output ports that have received `Done`.
    pub sealed: Vec<String>,
    /// The instances fired so far, in dispatch order.
    pub dispatched: Vec<String>,
    /// Whether the caller has gone away.
    pub cancelled: bool,
}

/// The mathematical value of a transaction.
#[verifier::ext_equal]
pub struct TxView {
    pub tx_id: Seq<char>,
    pub buffers: Seq<(Seq<char>, Seq<PacketView>)>,
    pub outputs: Seq<PortedPacketView>,
    pub sealed: Seq<Seq<char>>,
    pub dispatched: Seq<Seq<char>>,
    pub cancelled: bool,
}

impl View for Transaction {
    type V = TxView;

    open spec fn view(&self) -> TxView {
        TxView {
            tx_id: self.tx_id@,
            buffers: self.buffers.deep_view(),
            outputs: self.outputs.deep_view(),
            sealed: self.sealed.deep_view(),
            dispatched: self.dispatched.deep_view(),
            cancelled: self.cancelled,
        }
    }
}

/// Whether a transaction's buffers line up with a schematic's instances:
/// one queue per instance, in definition order.
pub open spec fn tx_matches(t: TxView, def: SchematicDef) -> bool {
    &&& t.buffers.len() == def.instances@.len()
    &&& forall|i: int|
        0 <= i < t.buffers.len() ==> (#[trigger] t.buffers[i]).0 == def.instances@[i].name@
}

/// Whether every instance queue is empty.
pub open spec fn all_queues_empty(t: TxView) -> bool {
    forall|i: int| 0 <= i < t.buffers.len() ==> (#[trigger] t.buffers[i]).1.len() == 0
}

/// Delivering one packet to one downstream endpoint: a packet for the
/// schematic's output side goes onto the caller's channel (and `Done`
/// seals that output port); a packet for an instance is appended to that
/// instance's queue.
pub open spec fn deliver_one(
    t: TxView,
    to_instance: Seq<char>,
    to_port: Seq<char>,
    p: PacketView,
) -> TxView {
    if to_instance == "<output>"@ {
        TxView {
            outputs: t.outputs.push(PortedPacketView { port: to_port, packet: p }),
            sealed: if p == PacketView::Signal(PacketSignal::Done) {
                t.sealed.push(to_port)
            } else {
                t.sealed
            },
            ..t
        }
    } else {
        TxView {
            buffers: Seq::new(
                t.buffers.len(),
                |i: int|
                    if t.buffers[i].0 == to_instance {
                        (t.buffers[i].0, t.buffers[i].1.push(p))
                    } else {
                        t.buffers[i]
                    },
            ),
            ..t
        }
    }
}

/// Routing one packet from an upstream port: the packet is delivered to
/// the target of every connection whose upstream side matches, in
/// connection order.
pub open spec fn route_spec(
    t: TxView,
    conns: Seq<ConnectionDef>,
    from_instance: Seq<char>,
    from_port: Seq<char>,
    p: PacketView,
) -> TxView
    decreases conns.len(),
{
    if conns.len() == 0 {
        t
    } else {
        let t2 = if conns[0].from.instance@ == from_instance && conns[0].from.port@ == from_port {
            deliver_one(t, conns[0].to.instance@, conns[0].to.port@, p)
        } else {
            t
        };
        route_spec(t2, conns.drop_first(), from_instance, from_port, p)
    }
}

proof fn lemma_route_take_step(
    t: TxView,
    conns: Seq<ConnectionDef>,
    from_instance: Seq<char>,
    from_port: Seq<char>,
    p: PacketView,
    i: int,
)
    requires
        0 <= i < conns.len(),
    ensures
        route_spec(t, conns.take(i + 1), from_instance, from_port, p) == (if conns[i].from.instance@
            == from_instance && conns[i].from.port@ == from_port {
            deliver_one(
                route_spec(t, conns.take(i), from_instance, from_port, p),
                conns[i].to.instance@,
                conns[i].to.port@,
                p,
            )
        } else {
            route_spec(t, conns.take(i), from_instance, from_port, p)
        }),
    decreases i,
{
    let t2 = if conns[0].from.instance@ == from_instance && conns[0].from.port@ == from_port {
        deliver_one(t, conns[0].to.instance@, conns[0].to.port@, p)
    } else {
        t
    };
    if i == 0 {
        assert(conns.take(1).len() == 1);
        assert(conns.take(1)[0] == conns[0]);
        assert(conns.take(1).drop_first() =~= Seq::<ConnectionDef>::empty());
        assert(conns.take(0) =~= Seq::<ConnectionDef>::empty());
        assert(route_spec(t, conns.take(1), from_instance, from_port, p) == route_spec(
            t2,
            conns.take(1).drop_first(),
            from_instance,
            from_port,
            p,
        ));
        assert(route_spec(t, conns.take(0), from_instance, from_port, p) == t);
    } else {
        lemma_route_take_step(t2, conns.drop_first(), from_instance, from_port, p, i - 1);
        assert(conns.take(i + 1)[0] == conns[0]);
        assert(conns.take(i)[0] == conns[0]);
        assert(conns.take(i + 1).drop_first() =~= conns.drop_first().take(i));
        assert(conns.take(i).drop_first() =~= conns.drop_first().take(i - 1));
        assert(conns.drop_first()[i - 1] == conns[i]);
        assert(route_spec(t, conns.take(i + 1), from_instance, from_port, p) == route_spec(
            t2,
            conns.drop_first().take(i),
            from_instance,
            from_port,
            p,
        ));
        assert(route_spec(t, conns.take(i), from_instance, from_port, p) == route_spec(
            t2,
            conns.drop_first().take(i - 1),
            from_instance,
            from_port,
            p,
        ));
    }
}

proof fn lemma_deliver_preserves(t: TxView, to_instance: Seq<char>, to_port: Seq<char>, p: PacketView)
    ensures
        deliver_one(t, to_instance, to_port, p).buffers.len() == t.buffers.len(),
        forall|i: int|
            0 <= i < t.buffers.len() ==> (#[trigger] deliver_one(
                t,
                to_instance,
                to_port,
                p,
            ).buffers[i]).0 == t.buffers[i].0,
        deliver_one(t, to_instance, to_port, p).tx_id == t.tx_id,
        deliver_one(t, to_instance, to_port, p).cancelled == t.cancelled,
        deliver_one(t, to_instance, to_port, p).dispatched == t.dispatched,
        deliver_one(t, to_instance, to_port, p).outputs.len() >= t.outputs.len(),
        deliver_one(t, to_instance, to_port, p).outputs.take(t.outputs.len() as int)
            == t.outputs,
{
    assert(deliver_one(t, to_instance, to_port, p).outputs.take(t.outputs.len() as int)
        =~= t.outputs);
}

/// Routing never renames or drops a queue, never touches the dispatch
/// log, and only ever appends to the caller's channel: what was already
/// sent stays, in order.
pub proof fn lemma_route_preserves(
    t: TxView,
    conns: Seq<ConnectionDef>,
    from_instance: Seq<char>,
    from_port: Seq<char>,
    p: PacketView,
)
    ensures
        route_spec(t, conns, from_instance, from_port, p).buffers.len() == t.buffers.len(),
        forall|i: int|
            0 <= i < t.buffers.len() ==> (#[trigger] route_spec(
                t,
                conns,
                from_instance,
                from_port,
                p,
            ).buffers[i]).0 == t.buffers[i].0,
        route_spec(t, conns, from_instance, from_port, p).tx_id == t.tx_id,
        route_spec(t, conns, from_instance, from_port, p).cancelled == t.cancelled,
        route_spec(t, conns, from_instance, from_port, p).dispatched == t.dispatched,
        route_spec(t, conns, from_instance, from_port, p).outputs.len() >= t.outputs.len(),
        route_spec(t, conns, from_instance, from_port, p).outputs.take(t.outputs.len() as int)
            == t.outputs,
    decreases conns.len(),
{
    if conns.len() == 0 {
        assert(route_spec(t, conns, from_instance, from_port, p).outputs.take(
            t.outputs.len() as int,
        ) =~= t.outputs);
    } else {
        let t2 = if conns[0].from.instance@ == from_instance && conns[0].from.port@ == from_port {
            deliver_one(t, conns[0].to.instance@, conns[0].to.port@, p)
        } else {
            t
        };
        lemma_deliver_preserves(t, conns[0].to.instance@, conns[0].to.port@, p);
        lemma_route_preserves(t2, conns.drop_first(), from_instance, from_port, p);
        assert(route_spec(t, conns, from_instance, from_port, p).outputs.take(
            t.outputs.len() as int,
        ) =~= t.outputs);
    }
}

/// The state a transaction opens in: one empty queue per instance of the
/// schematic, in definition order, with nothing sent, sealed or
/// dispatched.
pub open spec fn fresh_tx(tx_id: Seq<char>, def: SchematicDef) -> TxView {
    TxView {
        tx_id,
        buffers: Seq::new(
            def.instances@.len(),
            |i: int| (def.instances@[i].name@, Seq::<PacketView>::empty()),
        ),
        outputs: Seq::empty(),
        sealed: Seq::empty(),
        dispatched: Seq::empty(),
        cancelled: false,
    }
}

impl Transaction {
    /// Opens a transaction for a validated schematic: one empty queue per
    /// instance, an empty output channel, nothing dispatched.
    pub fn new(tx_id: String, model: &SchematicModel) -> (r: Transaction)
        ensures
            r@ == fresh_tx(tx_id@, model.def),
            r@.tx_id == tx_id@,
            tx_matches(r@, model.def),
            all_queues_empty(r@),
            r@.outputs.len() == 0,
            r@.sealed.len() == 0,
            r@.dispatched.len() == 0,
            !r@.cancelled,
    {
        let mut buffers: Vec<(String, Vec<Packet>)> = Vec::new();
        let n = model.def.instances.len();
        for i in 0..n
            invariant
                n == model.def.instances@.len(),
                buffers@.len() == i,
                forall|j: int|
                    0 <= j < i ==> (#[trigger] buffers@[j]).0@ == model.def.instances@[j].name@
                        && buffers@[j].1@.len() == 0,
        {
            let name = model.def.instances[i].name.clone();
            buffers.push((name, Vec::new()));
        }
        proof {
            let target = fresh_tx(tx_id@, model.def);
            assert forall|j: int| 0 <= j < buffers.deep_view().len() implies (
            #[trigger] buffers.deep_view()[j]) == target.buffers[j] by {
                assert(buffers.deep_view()[j] == buffers@[j].deep_view());
                assert(buffers@[j].1.deep_view() =~= Seq::<PacketView>::empty());
            }
            assert(buffers.deep_view() =~= target.buffers);
        }
        let r = Transaction {
            tx_id,
            buffers,
            outputs: Vec::new(),
            sealed: Vec::new(),
            dispatched: Vec::new(),
            cancelled: false,
        };
        proof {
            assert(r@.outputs =~= Seq::<PortedPacketView>::empty());
            assert(r@.sealed =~= Seq::<Seq<char>>::empty());
            assert(r@.dispatched =~= Seq::<Seq<char>>::empty());
            assert(r@ =~~= fresh_tx(r.tx_id@, model.def));
        }
        r
    }

    /// Marks the transaction cancelled and releases every buffer: all
    /// queues are emptied at once, and nothing already sent to the caller
    /// is touched.
    pub fn cancel(&mut self)
        ensures
            final(self)@.cancelled,
            final(self)@.tx_id == old(self)@.tx_id,
            final(self)@.buffers.len() == old(self)@.buffers.len(),
            forall|i: int|
                0 <= i < old(self)@.buffers.len() ==> (#[trigger] final(self)@.buffers[i]).0 == old(
                    self,
                )@.buffers[i].0,
            all_queues_empty(final(self)@),
            final(self)@.outputs == old(self)@.outputs,
            final(self)@.sealed == old(self)@.sealed,
            final(self)@.dispatched == old(self)@.dispatched,
    {
        self.cancelled = true;
        let ghost pre = *old(self);
        let n = self.buffers.len();
        for i in 0..n
            invariant
                n == self.buffers@.len(),
                self.cancelled,
                self.tx_id@ == pre.tx_id@,
                self.outputs@ == pre.outputs@,
                self.sealed@ == pre.sealed@,
                self.dispatched@ == pre.dispatched@,
                forall|j: int|
                    0 <= j < n ==> (#[trigger] self.buffers@[j]).0@ == pre.buffers@[j].0@,
                forall|j: int| 0 <= j < i ==> (#[trigger] self.buffers@[j]).1@.len() == 0,
        {
            let mut entry = self.buffers.remove(i);
            entry.1 = Vec::new();
            self.buffers.insert(i, entry);
        }
        proof {
            assert(self@.outputs =~= old(self)@.outputs);
            assert(self@.sealed =~= old(self)@.sealed);
            assert(self@.dispatched =~= old(self)@.dispatched);
            assert forall|j: int| 0 <= j < old(self)@.buffers.len() implies (
            #[trigger] self@.buffers[j]).0 == old(self)@.buffers[j].0 && self@.buffers[j].1.len()
                == 0 by {
                assert(self@.buffers[j] == self.buffers@[j].deep_view());
                assert(old(self)@.buffers[j] == old(self).buffers@[j].deep_view());
            }
        }
    }
}

/// Appends one packet to every matching queue, or to the caller's channel
/// when the target is the schematic's output side.
fn deliver(tx: &mut Transaction, to_instance: &str, to_port: &str, packet: Packet)
    ensures
        final(tx)@ == deliver_one(old(tx)@, to_instance@, to_port@, packet@),
{
    let owned_to = to_instance.to_owned();
    if owned_to == String::from_str("<output>") {
        let done = packet.is_done();
        let ghost packet_view = packet@;
        tx.outputs.push(PortedPacket { port: to_port.to_owned(), packet });
        if done {
            tx.sealed.push(to_port.to_owned());
        }
        proof {
            assert(tx@.outputs =~= old(tx)@.outputs.push(
                PortedPacketView { port: to_port@, packet: packet_view },
            ));
            if !done {
                assert(tx@.sealed =~= old(tx)@.sealed);
            } else {
                assert(tx@.sealed =~= old(tx)@.sealed.push(to_port@));
            }
            assert(tx@ =~~= deliver_one(old(tx)@, to_instance@, to_port@, packet_view));
        }
    } else {
        let ghost pre = *old(tx);
        let n = tx.buffers.len();
        for i in 0..n
            invariant
                n == tx.buffers@.len(),
                owned_to@ == to_instance@,
                to_instance@ != "<output>"@,
                tx.tx_id@ == pre.tx_id@,
                tx.cancelled == pre.cancelled,
                tx.outputs@ == pre.outputs@,
                tx.sealed@ == pre.sealed@,
                tx.dispatched@ == pre.dispatched@,
                forall|j: int|
                    0 <= j < n ==> (#[trigger] tx.buffers@[j]).0@ == pre.buffers@[j].0@,
                forall|j: int|
                    0 <= j < i && pre.buffers@[j].0@ == to_instance@ ==> (
                    #[trigger] tx.buffers@[j]).1.deep_view() == pre.buffers@[j].1.deep_view().push(
                        packet@,
                    ),
                forall|j: int|
                    0 <= j < n && (j >= i || pre.buffers@[j].0@ != to_instance@) ==> (
                    #[trigger] tx.buffers@[j]).1@ == pre.buffers@[j].1@,
        {
            if tx.buffers[i].0 == owned_to {
                let mut entry = tx.buffers.remove(i);
                entry.1.push(duplicate_packet(&packet));
                tx.buffers.insert(i, entry);
                proof {
                    assert(tx.buffers@[i as int].1.deep_view() =~= pre.buffers@[i as int].1.deep_view().push(packet@));
                }
            } else {
                proof {
                    assert(tx.buffers@[i as int].1@ == pre.buffers@[i as int].1@);
                }
            }
        }
        proof {
            let target = deliver_one(old(tx)@, to_instance@, to_port@, packet@);
            assert forall|j: int| 0 <= j < old(tx)@.buffers.len() implies tx@.buffers[j]
                == target.buffers[j] by {
                assert(tx@.buffers[j] == tx.buffers@[j].deep_view());
                assert(old(tx)@.buffers[j] == old(tx).buffers@[j].deep_view());
                if old(tx).buffers@[j].0@ == to_instance@ {
                    assert(tx.buffers@[j].1.deep_view() == old(tx).buffers@[j].1.deep_view().push(
                        packet@,
                    ));
                } else {
                    assert(tx.buffers@[j].1.deep_view() =~= old(tx).buffers@[j].1.deep_view());
                }
            }
            assert(tx@.buffers =~= target.buffers);
            assert(tx@.outputs =~= target.outputs);
            assert(tx@.sealed =~= target.sealed);
            assert(tx@.dispatched =~= target.dispatched);
            assert(tx@ =~~= target);
        }
    }
}

/// Routes one packet from an upstream port along every matching
/// connection, in connection order.
pub fn route(
    tx: &mut Transaction,
    model: &SchematicModel,
    from_instance: &str,
    from_port: &str,
    packet: &Packet,
)
    ensures
        final(tx)@ == route_spec(
            old(tx)@,
            model.def.connections@,
            from_instance@,
            from_port@,
            packet@,
        ),
{
    let from_owned = from_instance.to_owned();
    let port_owned = from_port.to_owned();
    let nc = model.def.connections.len();
    for i in 0..nc
        invariant
            nc == model.def.connections@.len(),
            from_owned@ == from_instance@,
            port_owned@ == from_port@,
            tx@ == route_spec(
                old(tx)@,
                model.def.connections@.take(i as int),
                from_instance@,
                from_port@,
                packet@,
            ),
    {
        proof {
            lemma_route_take_step(
                old(tx)@,
                model.def.connections@,
                from_instance@,
                from_port@,
                packet@,
                i as int,
            );
        }
        let c = &model.def.connections[i];
        if c.from.instance == from_owned && c.from.port == port_owned {
            deliver(tx, c.to.instance.as_str(), c.to.port.as_str(), duplicate_packet(packet));
        }
    }
    proof {
        assert(model.def.connections@.take(nc as int) =~= model.def.connections@);
    }
}

/// Seeds the caller's payload onto the schematic's input side: the packet
/// flows to every connection fed by the named input port.
pub fn seed_input(tx: &mut Transaction, model: &SchematicModel, port: &str, packet: &Packet)
    ensures
        final(tx)@ == route_spec(
            old(tx)@,
            model.def.connections@,
            "<input>"@,
            port@,
            packet@,
        ),
{
    let input_side = String::from_str("<input>");
    route(tx, model, input_side.as_str(), port, packet);
}

/// Seeding a whole caller payload: each ported packet is routed from the
/// schematic's input side, in payload order.
pub open spec fn seed_all(
    t: TxView,
    conns: Seq<ConnectionDef>,
    inputs: Seq<PortedPacketView>,
) -> TxView
    decreases inputs.len(),
{
    if inputs.len() == 0 {
        t
    } else {
        seed_all(
            route_spec(t, conns, "<input>"@, inputs[0].port, inputs[0].packet),
            conns,
            inputs.drop_first(),
        )
    }
}

proof fn lemma_seed_all_take_step(
    t: TxView,
    conns: Seq<ConnectionDef>,
    inputs: Seq<PortedPacketView>,
    i: int,
)
    requires
        0 <= i < inputs.len(),
    ensures
        seed_all(t, conns, inputs.take(i + 1)) == route_spec(
            seed_all(t, conns, inputs.take(i)),
            conns,
            "<input>"@,
            inputs[i].port,
            inputs[i].packet,
        ),
    decreases i,
{
    let t2 = route_spec(t, conns, "<input>"@, inputs[0].port, inputs[0].packet);
    if i == 0 {
        assert(inputs.take(1).len() == 1);
        assert(inputs.take(1)[0] == inputs[0]);
        assert(inputs.take(1).drop_first() =~= Seq::<PortedPacketView>::empty());
        assert(inputs.take(0) =~= Seq::<PortedPacketView>::empty());
        assert(seed_all(t, conns, inputs.take(1)) == seed_all(
            t2,
            conns,
            inputs.take(1).drop_first(),
        ));
        assert(seed_all(t, conns, inputs.take(0)) == t);
    } else {
        lemma_seed_all_take_step(t2, conns, inputs.drop_first(), i - 1);
        assert(inputs.take(i + 1)[0] == inputs[0]);
        assert(inputs.take(i)[0] == inputs[0]);
        assert(inputs.take(i + 1).drop_first() =~= inputs.drop_first().take(i));
        assert(inputs.take(i).drop_first() =~= inputs.drop_first().take(i - 1));
        assert(inputs.drop_first()[i - 1] == inputs[i]);
        assert(seed_all(t, conns, inputs.take(i + 1)) == seed_all(
            t2,
            conns,
            inputs.drop_first().take(i),
        ));
        assert(seed_all(t, conns, inputs.take(i)) == seed_all(
            t2,
            conns,
            inputs.drop_first().take(i - 1),
        ));
    }
}

/// Seeds every packet of the caller's payload, in order.
pub fn seed_inputs(tx: &mut Transaction, model: &SchematicModel, inputs: &Vec<PortedPacket>)
    ensures
        final(tx)@ == seed_all(old(tx)@, model.def.connections@, inputs.deep_view()),
{
    let ghost all = inputs.deep_view();
    let n = inputs.len();
    for k in 0..n
        invariant
            n == inputs@.len(),
            all == inputs.deep_view(),
            tx@ == seed_all(old(tx)@, model.def.connections@, all.take(k as int)),
    {
        proof {
            lemma_seed_all_take_step(old(tx)@, model.def.connections@, all, k as int);
            assert(all[k as int] == inputs@[k as int].deep_view());
        }
        seed_input(tx, model, inputs[k].port.as_str(), &inputs[k].packet);
    }
    proof {
        assert(all.take(n as int) =~= all);
    }
}

/// FIFO per port: appending packets `ps` one by one to a queue.
pub open spec fn pushed_all(q: Seq<PacketView>, ps: Seq<PacketView>) -> Seq<PacketView>
    decreases ps.len(),
{
    if ps.len() == 0 {
        q
    } else {
        pushed_all(q.push(ps[0]), ps.drop_first())
    }
}

/// FIFO per port: a queue that receives packets by appending them one at
/// a time holds them after what it already held, in exactly the order
/// they arrived; consuming from the front therefore observes them in
/// emission order.
pub proof fn lemma_fifo_per_port(q: Seq<PacketView>, ps: Seq<PacketView>)
    ensures
        pushed_all(q, ps) == q + ps,
    decreases ps.len(),
{
    if ps.len() == 0 {
        assert(q + ps =~= q);
    } else {
        lemma_fifo_per_port(q.push(ps[0]), ps.drop_first());
        assert(q.push(ps[0]) + ps.drop_first() =~= q + ps);
    }
}

/// The ASCII-uppercase image of one byte.
pub open spec fn upper_byte(b: u8) -> u8 {
    if 97 <= b && b <= 122 {
        (b - 32) as u8
    } else {
        b
    }
}

/// What each operation does to a decoded byte value.
pub open spec fn op_bytes(op: Operation, b: Seq<u8>) -> Seq<u8> {
    match op {
        Operation::Echo => b,
        Operation::Reverse => Seq::new(b.len(), |i: int| b[b.len() - 1 - i]),
        Operation::Upper => Seq::new(b.len(), |i: int| upper_byte(b[i])),
    }
}

/// Applies an operation to a decoded byte value.
fn apply_operation(op: Operation, payload: Vec<u8>) -> (r: Vec<u8>)
    ensures
        r@ == op_bytes(op, payload@),
{
    match op {
        Operation::Echo => payload,
        Operation::Reverse => {
            let mut out: Vec<u8> = Vec::new();
            let n = payload.len();
            for i in 0..n
                invariant
                    n == payload@.len(),
                    out@.len() == i,
                    forall|j: int| 0 <= j < i ==> out@[j] == payload@[n - 1 - j],
            {
                out.push(payload[n - 1 - i]);
            }
            proof {
                assert(out@ =~= op_bytes(Operation::Reverse, payload@));
            }
            out
        },
        Operation::Upper => {
            let mut out: Vec<u8> = Vec::new();
            let n = payload.len();
            for i in 0..n
                invariant
                    n == payload@.len(),
                    out@.len() == i,
                    forall|j: int| 0 <= j < i ==> out@[j] == upper_byte(payload@[j]),
            {
                let b = payload[i];
                if 97 <= b && b <= 122 {
                    out.push(b - 32);
                } else {
                    out.push(b);
                }
            }
            proof {
                assert(out@ =~= op_bytes(Operation::Upper, payload@));
            }
            out
        },
    }
}

/// How a `Success` packet comes out of an operation: whenever its payload
/// is the encoding of some value, the result is the encoding of the
/// operation's image of that value.
pub open spec fn success_transformed(p: PacketView, out: PacketView, op: Operation) -> bool {
    forall|v: Seq<u8>|
        (p matches PacketView::Success(enc) && enc == #[trigger] bytes_msgpack_of(v)) ==> out
            == PacketView::Success(bytes_msgpack_of(op_bytes(op, v)))
}

/// Runs one packet through an operation: a `Success` payload is decoded,
/// transformed and re-encoded (an undecodable payload becomes an in-band
/// `Error`); every other packet passes through untouched.
pub fn transform(op: Operation, p: Packet) -> (r: Packet)
    ensures
        !(p@ is Success) ==> r@ == p@,
        success_transformed(p@, r@, op),
{
    match p {
        Packet::Success(b) => match msgpack_decode_bytes(b.as_slice()) {
            Ok(v) => {
                let transformed = apply_operation(op, v);
                Packet::Success(msgpack_encode_bytes(&transformed))
            },
            Err(m) => {
                let mut msg = String::from_str("could not decode payload: ");
                msg.append(m.as_str());
                Packet::Error(msg)
            },
        },
        other => other,
    }
}

/// The index of the first instance whose queue holds a packet, scanning
/// from `i`; `-1` when none does.
pub open spec fn first_ready_from(buffers: Seq<(Seq<char>, Seq<PacketView>)>, i: int) -> int
    decreases buffers.len() - i,
    when 0 <= i <= buffers.len()
{
    if i < 0 || i >= buffers.len() {
        -1
    } else if buffers[i].1.len() > 0 {
        i
    } else {
        first_ready_from(buffers, i + 1)
    }
}

proof fn lemma_first_ready_skip(buffers: Seq<(Seq<char>, Seq<PacketView>)>, k: int)
    requires
        0 <= k <= buffers.len(),
        forall|j: int| 0 <= j < k ==> (#[trigger] buffers[j]).1.len() == 0,
    ensures
        first_ready_from(buffers, 0) == first_ready_from(buffers, k),
    decreases k,
{
    if k > 0 {
        lemma_first_ready_skip(buffers, k - 1);
        assert(first_ready_from(buffers, k - 1) == first_ready_from(buffers, k));
    }
}

/// Finds the first instance with a pending packet, in definition order:
/// the deterministic dispatch choice.
fn find_ready(tx: &Transaction) -> (r: Option<usize>)
    ensures
        r matches Some(i) ==> 0 <= i < tx@.buffers.len() && i == first_ready_from(tx@.buffers, 0)
            && tx@.buffers[i as int].1.len() > 0,
        r is None ==> first_ready_from(tx@.buffers, 0) == -1,
{
    let n = tx.buffers.len();
    for i in 0..n
        invariant
            n == tx.buffers@.len(),
            forall|j: int| 0 <= j < i ==> (#[trigger] tx@.buffers[j]).1.len() == 0,
    {
        proof {
            assert(tx@.buffers[i as int] == tx.buffers@[i as int].deep_view());
        }
        if tx.buffers[i].1.len() > 0 {
            proof {
                lemma_first_ready_skip(tx@.buffers, i as int);
            }
            return Some(i);
        }
    }
    proof {
        lemma_first_ready_skip(tx@.buffers, n as int);
    }
    None
}

/// A transaction with the first packet of queue `i` consumed.
pub open spec fn popped_at(t: TxView, i: int) -> TxView {
    TxView {
        buffers: t.buffers.update(i, (t.buffers[i].0, t.buffers[i].1.drop_first())),
        ..t
    }
}

/// A transaction with one more instance recorded as dispatched.
pub open spec fn dispatch_logged(t: TxView, name: Seq<char>) -> TxView {
    TxView { dispatched: t.dispatched.push(name), ..t }
}

/// What one successful fire does: the first pending packet of instance
/// `i` is consumed; a `Done` cascades along the instance's connections
/// without a dispatch; any other packet is recorded as a dispatch, run
/// through the instance's operation, and the result is routed along the
/// instance's connections.
pub open spec fn fired_ok(pre: TxView, post: TxView, def: SchematicDef, i: int) -> bool {
    let name = pre.buffers[i].0;
    let p = pre.buffers[i].1[0];
    let op = def.instances@[i].operation;
    if p == PacketView::Signal(PacketSignal::Done) {
        post == route_spec(popped_at(pre, i), def.connections@, name, "output"@, p)
    } else {
        exists|out: PacketView|
            #![trigger success_transformed(p, out, op)]
            post == route_spec(
                dispatch_logged(popped_at(pre, i), name),
                def.connections@,
                name,
                "output"@,
                out,
            ) && success_transformed(p, out, op) && (!(p is Success) ==> out == p)
    }
}

/// A transaction with every instance queue released: the queues are
/// empty, their names and everything else stand as they were.
pub open spec fn released(t: TxView) -> TxView {
    TxView {
        buffers: Seq::new(t.buffers.len(), |i: int| (t.buffers[i].0, Seq::<PacketView>::empty())),
        ..t
    }
}

/// Empties every instance queue, keeping everything else intact.
fn release_buffers(tx: &mut Transaction)
    ensures
        final(tx)@ == released(old(tx)@),
{
    let ghost pre = *old(tx);
    let n = tx.buffers.len();
    for i in 0..n
        invariant
            n == tx.buffers@.len(),
            tx.tx_id@ == pre.tx_id@,
            tx.cancelled == pre.cancelled,
            tx.outputs@ == pre.outputs@,
            tx.sealed@ == pre.sealed@,
            tx.dispatched@ == pre.dispatched@,
            forall|j: int| 0 <= j < n ==> (#[trigger] tx.buffers@[j]).0@ == pre.buffers@[j].0@,
            forall|j: int| 0 <= j < i ==> (#[trigger] tx.buffers@[j]).1@.len() == 0,
    {
        let mut entry = tx.buffers.remove(i);
        entry.1 = Vec::new();
        tx.buffers.insert(i, entry);
    }
    proof {
        let target = released(old(tx)@);
        assert forall|j: int| 0 <= j < old(tx)@.buffers.len() implies tx@.buffers[j]
            == target.buffers[j] by {
            assert(tx@.buffers[j] == tx.buffers@[j].deep_view());
            assert(old(tx)@.buffers[j] == old(tx).buffers@[j].deep_view());
            assert(tx@.buffers[j].1 =~= Seq::<PacketView>::empty());
        }
        assert(tx@.buffers =~= target.buffers);
        assert(tx@.outputs =~= target.outputs);
        assert(tx@.sealed =~= target.sealed);
        assert(tx@.dispatched =~= target.dispatched);
        assert(tx@ =~~= target);
    }
}

/// One scheduling tick. A cancelled transaction dispatches nothing and
/// keeps its buffers released. Otherwise the first instance with a
/// pending packet fires, exactly as `fired_ok` states; when no instance
/// is ready nothing changes.
pub fn step(tx: &mut Transaction, model: &SchematicModel) -> (fired: bool)
    requires
        tx_matches(old(tx)@, model.def),
    ensures
        tx_matches(final(tx)@, model.def),
        final(tx)@.tx_id == old(tx)@.tx_id,
        final(tx)@.cancelled == old(tx)@.cancelled,
        stepped(old(tx)@, final(tx)@, model.def, fired),
        old(tx)@.cancelled ==> !fired && all_queues_empty(final(tx)@) && final(tx)@.outputs == old(
            tx,
        )@.outputs && final(tx)@.dispatched == old(tx)@.dispatched && final(tx)@.sealed == old(
            tx,
        )@.sealed,
{
    if tx.cancelled {
        release_buffers(tx);
        return false;
    }
    let ghost pre = tx@;
    match find_ready(tx) {
        None => {
            proof {
                assert(tx@ =~~= pre);
            }
            false
        },
        Some(i) => {
            proof {
                assert(pre.buffers[i as int] == tx.buffers@[i as int].deep_view());
                assert(tx.buffers@[i as int].1@.len() == pre.buffers[i as int].1.len());
            }
            let mut entry = tx.buffers.remove(i);
            let p = entry.1.remove(0);
            tx.buffers.insert(i, entry);
            proof {
                assert(tx.buffers@[i as int].1@ =~= old(tx).buffers@[i as int].1@.drop_first());
                assert forall|j: int| 0 <= j < pre.buffers.len() implies tx@.buffers[j]
                    == popped_at(pre, i as int).buffers[j] by {
                    assert(tx@.buffers[j] == tx.buffers@[j].deep_view());
                    assert(pre.buffers[j] == old(tx).buffers@[j].deep_view());
                    if j == i {
                        assert(tx.buffers@[j].1.deep_view() =~= old(
                            tx,
                        ).buffers@[j].1.deep_view().drop_first());
                    }
                }
                assert(tx@.buffers =~= popped_at(pre, i as int).buffers);
                assert(tx@ =~~= popped_at(pre, i as int));
                assert(p@ == pre.buffers[i as int].1[0]);
            }
            let name = tx.buffers[i].0.clone();
            proof {
                assert(name@ == pre.buffers[i as int].0);
            }
            let op = model.def.instances[i].operation;
            if p.is_done() {
                let ghost popped = tx@;
                route(tx, model, name.as_str(), "output", &p);
                proof {
                    lemma_route_preserves(
                        popped,
                        model.def.connections@,
                        name@,
                        "output"@,
                        p@,
                    );
                }
            } else {
                tx.dispatched.push(name.clone());
                proof {
                    assert(tx@.dispatched =~= popped_at(pre, i as int).dispatched.push(name@));
                    assert(tx@ =~~= dispatch_logged(popped_at(pre, i as int), name@));
                }
                let out = transform(op, p);
                let ghost mid = tx@;
                route(tx, model, name.as_str(), "output", &out);
                proof {
                    lemma_route_preserves(
                        mid,
                        model.def.connections@,
                        name@,
                        "output"@,
                        out@,
                    );
                    assert(success_transformed(p@, out@, op));
                    assert(fired_ok(pre, tx@, model.def, i as int));
                }
            }
            true
        },
    }
}

/// Whether every schematic output port has received its `Done`.
pub open spec fn output_ports_sealed(t: TxView, conns: Seq<ConnectionDef>) -> bool {
    forall|i: int|
        0 <= i < conns.len() && (#[trigger] conns[i]).to.instance@ == "<output>"@
            ==> t.sealed.contains(conns[i].to.port@)
}

/// Whether the sealed list holds `port`.
fn sealed_contains(tx: &Transaction, port: &String) -> (r: bool)
    ensures
        r == tx@.sealed.contains(port@),
{
    let n = tx.sealed.len();
    for i in 0..n
        invariant
            n == tx.sealed@.len(),
            forall|j: int| 0 <= j < i ==> (#[trigger] tx@.sealed[j]) != port@,
    {
        proof {
            assert(tx@.sealed[i as int] == tx.sealed@[i as int]@);
        }
        if tx.sealed[i] == *port {
            proof {
                assert(tx@.sealed[i as int] == port@);
                assert(tx@.sealed.contains(port@));
            }
            return true;
        } else {
            proof {
                assert(tx@.sealed[i as int] != port@);
            }
        }
    }
    proof {
        if tx@.sealed.contains(port@) {
            let w = choose|j: int| 0 <= j < tx@.sealed.len() && tx@.sealed[j] == port@;
            assert(tx@.sealed[w] != port@);
        }
    }
    false
}

/// Whether the transaction has terminated normally: every output port of
/// the schematic is sealed.
pub fn is_complete(tx: &Transaction, model: &SchematicModel) -> (r: bool)
    ensures
        r == output_ports_sealed(tx@, model.def.connections@),
{
    let out_side = String::from_str("<output>");
    let nc = model.def.connections.len();
    for i in 0..nc
        invariant
            nc == model.def.connections@.len(),
            out_side@ == "<output>"@,
            forall|j: int|
                0 <= j < i && (#[trigger] model.def.connections@[j]).to.instance@ == "<output>"@
                    ==> tx@.sealed.contains(model.def.connections@[j].to.port@),
    {
        let c = &model.def.connections[i];
        if c.to.instance == out_side {
            if !sealed_contains(tx, &c.to.port) {
                return false;
            }
        }
    }
    true
}

/// Drives the transaction for at most `max_ticks` scheduling ticks,
/// stopping early when a tick finds nothing to do. A cancelled
/// transaction makes no progress at all: nothing further reaches the
/// caller's channel and nothing further is dispatched, however many ticks
/// run — cancellation quiesces within a bounded number of ticks.
/// What one scheduling tick does, as a relation between transaction
/// states: a cancelled transaction is released and nothing fires; with no
/// instance ready nothing changes; otherwise the first ready instance
/// fires exactly as `fired_ok` states.
pub open spec fn stepped(pre: TxView, post: TxView, def: SchematicDef, fired: bool) -> bool {
    if pre.cancelled {
        !fired && post == released(pre)
    } else if first_ready_from(pre.buffers, 0) < 0 {
        !fired && post == pre
    } else {
        fired && fired_ok(pre, post, def, first_ready_from(pre.buffers, 0))
    }
}

/// Whether the next tick would fire an instance.
pub open spec fn tick_fires(t: TxView) -> bool {
    !t.cancelled && first_ready_from(t.buffers, 0) >= 0
}

/// Reaching `post` from `pre` by exactly `ticks` ticks, every one of
/// which fired.
pub open spec fn fired_steps_to(pre: TxView, post: TxView, def: SchematicDef, ticks: nat) -> bool
    decreases ticks,
{
    if ticks == 0 {
        post == pre
    } else {
        exists|mid: TxView|
            #[trigger] stepped(pre, mid, def, true) && fired_steps_to(
                mid,
                post,
                def,
                (ticks - 1) as nat,
            )
    }
}

/// Reaching `post` from `pre` by exactly `ticks` ticks of the scheduler:
/// every tick but possibly the last fired an instance, and an idle tick,
/// if any, is the last.
pub open spec fn steps_to(pre: TxView, post: TxView, def: SchematicDef, ticks: nat) -> bool {
    ||| fired_steps_to(pre, post, def, ticks)
    ||| (ticks >= 1 && exists|mid: TxView|
        #[trigger] fired_steps_to(pre, mid, def, (ticks - 1) as nat) && stepped(
            mid,
            post,
            def,
            false,
        ))
}

proof fn lemma_fired_steps_snoc(pre: TxView, mid: TxView, post: TxView, def: SchematicDef, k: nat)
    requires
        fired_steps_to(pre, mid, def, k),
        stepped(mid, post, def, true),
    ensures
        fired_steps_to(pre, post, def, (k + 1) as nat),
    decreases k,
{
    if k == 0 {
        assert(mid == pre);
        assert(fired_steps_to(post, post, def, 0));
        assert(stepped(pre, post, def, true));
    } else {
        let m1 = choose|m1: TxView|
            #[trigger] stepped(pre, m1, def, true) && fired_steps_to(m1, mid, def, (k - 1) as nat);
        lemma_fired_steps_snoc(m1, mid, post, def, (k - 1) as nat);
        assert(stepped(pre, m1, def, true) && fired_steps_to(m1, post, def, k));
    }
}

/// Drives the transaction for at most `max_ticks` scheduling ticks,
/// stopping after the first tick that finds nothing to do. The final
/// state is reached from the initial one by exactly the returned number
/// of ticks of the step relation, and the loop only stops early once no
/// instance is ready (or the transaction is cancelled): a scheduler that
/// leaves ready work undone does not meet this contract. A cancelled
/// transaction makes no progress at all — cancellation quiesces within
/// one tick.
pub fn run(tx: &mut Transaction, model: &SchematicModel, max_ticks: usize) -> (ticks: usize)
    requires
        tx_matches(old(tx)@, model.def),
    ensures
        tx_matches(final(tx)@, model.def),
        ticks <= max_ticks,
        final(tx)@.tx_id == old(tx)@.tx_id,
        final(tx)@.cancelled == old(tx)@.cancelled,
        steps_to(old(tx)@, final(tx)@, model.def, ticks as nat),
        ticks == max_ticks || !tick_fires(final(tx)@),
        old(tx)@.cancelled ==> final(tx)@.outputs == old(tx)@.outputs && final(tx)@.dispatched
            == old(tx)@.dispatched && all_queues_empty(final(tx)@) || max_ticks == 0 && final(tx)@
            == old(tx)@,
{
    let mut t: usize = 0;
    while t < max_ticks
        invariant
            t <= max_ticks,
            tx_matches(tx@, model.def),
            tx@.tx_id == old(tx)@.tx_id,
            tx@.cancelled == old(tx)@.cancelled,
            fired_steps_to(old(tx)@, tx@, model.def, t as nat),
            old(tx)@.cancelled && t > 0 ==> tx@.outputs == old(tx)@.outputs && tx@.dispatched
                == old(tx)@.dispatched && all_queues_empty(tx@),
            t == 0 ==> tx@ == old(tx)@,
        decreases max_ticks - t,
    {
        let ghost pre_t = tx@;
        let fired = step(tx, model);
        t = t + 1;
        if !fired {
            proof {
                assert(stepped(pre_t, tx@, model.def, false));
                assert(fired_steps_to(old(tx)@, pre_t, model.def, (t - 1) as nat));
                assert(steps_to(old(tx)@, tx@, model.def, t as nat));
                if pre_t.cancelled {
                    assert(!tick_fires(tx@));
                } else {
                    assert(tx@ == pre_t);
                    assert(!tick_fires(tx@));
                }
            }
            return t;
        }
        proof {
            lemma_fired_steps_snoc(old(tx)@, pre_t, tx@, model.def, (t - 1) as nat);
        }
    }
    proof {
        assert(steps_to(old(tx)@, tx@, model.def, t as nat));
    }
    t
}

/// Synthesising a default: an instance input that holds nothing receives
/// the defaulted value as JSON text followed by `Done`; a fed input is
/// left alone.
pub open spec fn apply_default(t: TxView, name: Seq<char>, val: Seq<char>) -> TxView {
    TxView {
        buffers: Seq::new(
            t.buffers.len(),
            |i: int|
                if t.buffers[i].0 == name && t.buffers[i].1.len() == 0 {
                    (
                        t.buffers[i].0,
                        seq![
                            PacketView::Json(val),
                            PacketView::Signal(PacketSignal::Done),
                        ],
                    )
                } else {
                    t.buffers[i]
                },
        ),
        ..t
    }
}

/// Applying every default of the schematic, in declaration order.
pub open spec fn defaults_spec(t: TxView, defaults: Seq<(String, String)>) -> TxView
    decreases defaults.len(),
{
    if defaults.len() == 0 {
        t
    } else {
        defaults_spec(apply_default(t, defaults[0].0@, defaults[0].1@), defaults.drop_first())
    }
}

proof fn lemma_defaults_take_step(t: TxView, defaults: Seq<(String, String)>, i: int)
    requires
        0 <= i < defaults.len(),
    ensures
        defaults_spec(t, defaults.take(i + 1)) == apply_default(
            defaults_spec(t, defaults.take(i)),
            defaults[i].0@,
            defaults[i].1@,
        ),
    decreases i,
{
    let t2 = apply_default(t, defaults[0].0@, defaults[0].1@);
    if i == 0 {
        assert(defaults.take(1).len() == 1);
        assert(defaults.take(1)[0] == defaults[0]);
        assert(defaults.take(1).drop_first() =~= Seq::<(String, String)>::empty());
        assert(defaults.take(0) =~= Seq::<(String, String)>::empty());
        assert(defaults_spec(t, defaults.take(1)) == defaults_spec(
            t2,
            defaults.take(1).drop_first(),
        ));
    } else {
        lemma_defaults_take_step(t2, defaults.drop_first(), i - 1);
        assert(defaults.take(i + 1)[0] == defaults[0]);
        assert(defaults.take(i)[0] == defaults[0]);
        assert(defaults.take(i + 1).drop_first() =~= defaults.drop_first().take(i));
        assert(defaults.take(i).drop_first() =~= defaults.drop_first().take(i - 1));
        assert(defaults.drop_first()[i - 1] == defaults[i]);
        assert(defaults_spec(t, defaults.take(i + 1)) == defaults_spec(
            t2,
            defaults.drop_first().take(i),
        ));
        assert(defaults_spec(t, defaults.take(i)) == defaults_spec(
            t2,
            defaults.drop_first().take(i - 1),
        ));
    }
}

/// Synthesises one default onto every matching, still-empty instance
/// queue.
fn apply_default_exec(tx: &mut Transaction, name: &str, val: &str)
    ensures
        final(tx)@ == apply_default(old(tx)@, name@, val@),
{
    let ghost pre = *old(tx);
    let owned = name.to_owned();
    let n = tx.buffers.len();
    for i in 0..n
        invariant
            n == tx.buffers@.len(),
            owned@ == name@,
            tx.tx_id@ == pre.tx_id@,
            tx.cancelled == pre.cancelled,
            tx.outputs@ == pre.outputs@,
            tx.sealed@ == pre.sealed@,
            tx.dispatched@ == pre.dispatched@,
            forall|j: int| 0 <= j < n ==> (#[trigger] tx.buffers@[j]).0@ == pre.buffers@[j].0@,
            forall|j: int|
                0 <= j < i && pre.buffers@[j].0@ == name@ && pre.buffers@[j].1@.len() == 0 ==> (
                #[trigger] tx.buffers@[j]).1.deep_view() == seq![
                    PacketView::Json(val@),
                    PacketView::Signal(PacketSignal::Done),
                ],
            forall|j: int|
                0 <= j < n && (j >= i || pre.buffers@[j].0@ != name@ || pre.buffers@[j].1@.len()
                    != 0) ==> (#[trigger] tx.buffers@[j]).1@ == pre.buffers@[j].1@,
    {
        if tx.buffers[i].0 == owned && tx.buffers[i].1.len() == 0 {
            let mut entry = tx.buffers.remove(i);
            entry.1.push(Packet::Json(val.to_owned()));
            entry.1.push(Packet::Signal(PacketSignal::Done));
            tx.buffers.insert(i, entry);
            proof {
                assert(tx.buffers@[i as int].1.deep_view() =~= seq![
                    PacketView::Json(val@),
                    PacketView::Signal(PacketSignal::Done),
                ]);
            }
        }
    }
    proof {
        let target = apply_default(old(tx)@, name@, val@);
        assert forall|j: int| 0 <= j < old(tx)@.buffers.len() implies tx@.buffers[j]
            == target.buffers[j] by {
            assert(tx@.buffers[j] == tx.buffers@[j].deep_view());
            assert(old(tx)@.buffers[j] == old(tx).buffers@[j].deep_view());
            assert(old(tx)@.buffers[j].1.len() == old(tx).buffers@[j].1@.len());
            if !(old(tx).buffers@[j].0@ == name@ && old(tx).buffers@[j].1@.len() == 0) {
                assert(tx.buffers@[j].1.deep_view() =~= old(tx).buffers@[j].1.deep_view());
            }
        }
        assert(tx@.buffers =~= target.buffers);
        assert(tx@.outputs =~= target.outputs);
        assert(tx@.sealed =~= target.sealed);
        assert(tx@.dispatched =~= target.dispatched);
        assert(tx@ =~~= target);
    }
}

/// Synthesises the schematic's defaults: after the caller's payload is
/// seeded, every defaulted instance input that received nothing gets its
/// default value, then `Done`.
pub fn seed_defaults(tx: &mut Transaction, model: &SchematicModel)
    ensures
        final(tx)@ == defaults_spec(old(tx)@, model.def.defaults@),
{
    let nd = model.def.defaults.len();
    for i in 0..nd
        invariant
            nd == model.def.defaults@.len(),
            tx@ == defaults_spec(old(tx)@, model.def.defaults@.take(i as int)),
    {
        proof {
            lemma_defaults_take_step(old(tx)@, model.def.defaults@, i as int);
        }
        apply_default_exec(
            tx,
            model.def.defaults[i].0.as_str(),
            model.def.defaults[i].1.as_str(),
        );
    }
    proof {
        assert(model.def.defaults@.take(nd as int) =~= model.def.defaults@);
    }
}

/// Routing a whole stream of packets from one upstream port, one packet
/// at a time.
pub open spec fn route_all(
    t: TxView,
    conns: Seq<ConnectionDef>,
    from_instance: Seq<char>,
    from_port: Seq<char>,
    ps: Seq<PacketView>,
) -> TxView
    decreases ps.len(),
{
    if ps.len() == 0 {
        t
    } else {
        route_all(
            route_spec(t, conns, from_instance, from_port, ps[0]),
            conns,
            from_instance,
            from_port,
            ps.drop_first(),
        )
    }
}

/// Whether connection `j` carries packets from the given upstream port.
pub open spec fn conn_matches(
    c: ConnectionDef,
    from_instance: Seq<char>,
    from_port: Seq<char>,
) -> bool {
    c.from.instance@ == from_instance && c.from.port@ == from_port
}

proof fn lemma_route_no_match(
    t: TxView,
    conns: Seq<ConnectionDef>,
    from_instance: Seq<char>,
    from_port: Seq<char>,
    p: PacketView,
)
    requires
        forall|j: int|
            0 <= j < conns.len() ==> !conn_matches(#[trigger] conns[j], from_instance, from_port),
    ensures
        route_spec(t, conns, from_instance, from_port, p) == t,
    decreases conns.len(),
{
    if conns.len() > 0 {
        assert(!conn_matches(conns[0], from_instance, from_port));
        assert(forall|j: int|
            0 <= j < conns.drop_first().len() ==> !conn_matches(
                #[trigger] conns.drop_first()[j],
                from_instance,
                from_port,
            ));
        lemma_route_no_match(t, conns.drop_first(), from_instance, from_port, p);
    }
}

proof fn lemma_route_single_conn(
    t: TxView,
    conns: Seq<ConnectionDef>,
    from_instance: Seq<char>,
    from_port: Seq<char>,
    p: PacketView,
    c: int,
)
    requires
        0 <= c < conns.len(),
        conn_matches(conns[c], from_instance, from_port),
        forall|j: int|
            0 <= j < conns.len() && j != c ==> !conn_matches(
                #[trigger] conns[j],
                from_instance,
                from_port,
            ),
    ensures
        route_spec(t, conns, from_instance, from_port, p) == deliver_one(
            t,
            conns[c].to.instance@,
            conns[c].to.port@,
            p,
        ),
    decreases conns.len(),
{
    if c == 0 {
        let t2 = deliver_one(t, conns[0].to.instance@, conns[0].to.port@, p);
        assert(forall|j: int|
            0 <= j < conns.drop_first().len() ==> !conn_matches(
                #[trigger] conns.drop_first()[j],
                from_instance,
                from_port,
            ));
        lemma_route_no_match(t2, conns.drop_first(), from_instance, from_port, p);
    } else {
        assert(!conn_matches(conns[0], from_instance, from_port));
        assert(conns.drop_first()[c - 1] == conns[c]);
        assert(forall|j: int|
            0 <= j < conns.drop_first().len() && j != c - 1 ==> !conn_matches(
                #[trigger] conns.drop_first()[j],
                from_instance,
                from_port,
            ));
        lemma_route_single_conn(t, conns.drop_first(), from_instance, from_port, p, c - 1);
    }
}

/// FIFO per port, end to end: when exactly one connection carries an
/// upstream port to a downstream instance, routing the packets
/// `p1 … pn` one at a time appends exactly `p1 … pn`, in that order, to
/// every queue of that instance; every other queue, and everything else
/// in the transaction, is untouched. The downstream consumes its queue
/// from the front, so it observes the packets in emission order.
pub proof fn lemma_fifo_per_connection(
    t: TxView,
    conns: Seq<ConnectionDef>,
    from_instance: Seq<char>,
    from_port: Seq<char>,
    ps: Seq<PacketView>,
    c: int,
)
    requires
        0 <= c < conns.len(),
        conn_matches(conns[c], from_instance, from_port),
        forall|j: int|
            0 <= j < conns.len() && j != c ==> !conn_matches(
                #[trigger] conns[j],
                from_instance,
                from_port,
            ),
        conns[c].to.instance@ != "<output>"@,
    ensures
        route_all(t, conns, from_instance, from_port, ps).buffers.len() == t.buffers.len(),
        forall|i: int|
            0 <= i < t.buffers.len() && t.buffers[i].0 == conns[c].to.instance@ ==> (
            #[trigger] route_all(t, conns, from_instance, from_port, ps).buffers[i]).1
                == t.buffers[i].1 + ps,
        forall|i: int|
            0 <= i < t.buffers.len() && t.buffers[i].0 != conns[c].to.instance@ ==> (
            #[trigger] route_all(t, conns, from_instance, from_port, ps).buffers[i])
                == t.buffers[i],
        route_all(t, conns, from_instance, from_port, ps).outputs == t.outputs,
        route_all(t, conns, from_instance, from_port, ps).sealed == t.sealed,
        route_all(t, conns, from_instance, from_port, ps).dispatched == t.dispatched,
        route_all(t, conns, from_instance, from_port, ps).cancelled == t.cancelled,
    decreases ps.len(),
{
    if ps.len() == 0 {
        assert forall|i: int|
            0 <= i < t.buffers.len() && t.buffers[i].0 == conns[c].to.instance@ implies (
        #[trigger] route_all(t, conns, from_instance, from_port, ps).buffers[i]).1
            == t.buffers[i].1 + ps by {
            assert(t.buffers[i].1 + ps =~= t.buffers[i].1);
        }
    } else {
        lemma_route_single_conn(t, conns, from_instance, from_port, ps[0], c);
        let t2 = deliver_one(t, conns[c].to.instance@, conns[c].to.port@, ps[0]);
        lemma_fifo_per_connection(t2, conns, from_instance, from_port, ps.drop_first(), c);
        assert forall|i: int|
            0 <= i < t.buffers.len() && t.buffers[i].0 == conns[c].to.instance@ implies (
        #[trigger] route_all(t, conns, from_instance, from_port, ps).buffers[i]).1
            == t.buffers[i].1 + ps by {
            assert(t2.buffers[i].1 == t.buffers[i].1.push(ps[0]));
            assert(t.buffers[i].1.push(ps[0]) + ps.drop_first() =~= t.buffers[i].1 + ps);
        }
    }
}

/// Expires the transaction's deadline: every schematic output port that
/// has not yet sealed receives a `Timeout` error packet and its `Done`,
/// and is sealed; nothing already sent is touched, nothing else is
/// appended, and afterwards every output port is sealed so the caller's
/// channel can close.
pub fn flush_timeout(tx: &mut Transaction, model: &SchematicModel)
    ensures
        final(tx)@.tx_id == old(tx)@.tx_id,
        final(tx)@.cancelled == old(tx)@.cancelled,
        final(tx)@.buffers == old(tx)@.buffers,
        final(tx)@.dispatched == old(tx)@.dispatched,
        final(tx)@.outputs.len() >= old(tx)@.outputs.len(),
        final(tx)@.outputs.take(old(tx)@.outputs.len() as int) == old(tx)@.outputs,
        forall|k: int|
            old(tx)@.outputs.len() <= k < final(tx)@.outputs.len()
                ==> ((#[trigger] final(tx)@.outputs[k]).packet matches PacketView::Error(m)
                && m == "Timeout"@
                || final(tx)@.outputs[k].packet == PacketView::Signal(PacketSignal::Done)),
        output_ports_sealed(final(tx)@, model.def.connections@),
{
    let ghost pre = tx@;
    let out_side = String::from_str("<output>");
    let nc = model.def.connections.len();
    for i in 0..nc
        invariant
            nc == model.def.connections@.len(),
            out_side@ == "<output>"@,
            tx.tx_id@ == pre.tx_id,
            tx.cancelled == pre.cancelled,
            tx@.buffers == pre.buffers,
            tx@.dispatched == pre.dispatched,
            tx@.outputs.len() >= pre.outputs.len(),
            tx@.outputs.take(pre.outputs.len() as int) == pre.outputs,
            forall|k: int|
                pre.outputs.len() <= k < tx@.outputs.len() ==> ((#[trigger] tx@.outputs[k]).packet
                    matches PacketView::Error(m) && m == "Timeout"@ || tx@.outputs[k].packet
                    == PacketView::Signal(PacketSignal::Done)),
            forall|j: int|
                0 <= j < tx@.sealed.len() ==> pre.sealed.contains(#[trigger] tx@.sealed[j])
                    || exists|q: int|
                    0 <= q < nc && (#[trigger] model.def.connections@[q]).to.instance@
                        == "<output>"@ && model.def.connections@[q].to.port@ == tx@.sealed[j],
            forall|j: int|
                0 <= j < i && (#[trigger] model.def.connections@[j]).to.instance@ == "<output>"@
                    ==> tx@.sealed.contains(model.def.connections@[j].to.port@),
    {
        let c = &model.def.connections[i];
        if c.to.instance == out_side {
            if !sealed_contains(tx, &c.to.port) {
                let ghost sealed_before = tx@.sealed;
                let ghost outputs_before = tx@.outputs;
                tx.outputs.push(
                    PortedPacket {
                        port: c.to.port.clone(),
                        packet: Packet::Error(String::from_str("Timeout")),
                    },
                );
                tx.outputs.push(
                    PortedPacket {
                        port: c.to.port.clone(),
                        packet: Packet::Signal(PacketSignal::Done),
                    },
                );
                tx.sealed.push(c.to.port.clone());
                proof {
                    let port_view = model.def.connections@[i as int].to.port@;
                    assert(tx@.sealed =~= sealed_before.push(port_view));
                    assert(tx@.outputs =~= outputs_before.push(
                        PortedPacketView { port: port_view, packet: PacketView::Error("Timeout"@) },
                    ).push(
                        PortedPacketView {
                            port: port_view,
                            packet: PacketView::Signal(PacketSignal::Done),
                        },
                    ));
                    assert(tx@.outputs.take(pre.outputs.len() as int) =~= pre.outputs);
                    assert forall|k: int|
                        pre.outputs.len() <= k < tx@.outputs.len() implies ((
                    #[trigger] tx@.outputs[k]).packet matches PacketView::Error(m) && m
                        == "Timeout"@ || tx@.outputs[k].packet == PacketView::Signal(
                        PacketSignal::Done,
                    )) by {
                        if k < outputs_before.len() {
                            assert(tx@.outputs[k] == outputs_before[k]);
                        }
                    }
                    assert forall|j: int| 0 <= j <= i && (
                    #[trigger] model.def.connections@[j]).to.instance@ == "<output>"@ implies
                        tx@.sealed.contains(model.def.connections@[j].to.port@) by {
                        if j < i {
                            let w = choose|w: int|
                                0 <= w < sealed_before.len() && sealed_before[w]
                                    == model.def.connections@[j].to.port@;
                            assert(tx@.sealed[w] == model.def.connections@[j].to.port@);
                        } else {
                            assert(tx@.sealed[tx@.sealed.len() - 1] == port_view);
                        }
                    }
                }
            }
        }
    }
    proof {
        assert(tx@.buffers =~= old(tx)@.buffers);
        assert(tx@.dispatched =~= old(tx)@.dispatched);
    }
}

} // verus!
