//! The SQL component's decision logic: configuration validation against
//! the one allowed output shape, binding of incoming packets to query
//! arguments, and the per-tick decision over the zipped input streams.
//! The database connection and query execution live at the host's edge;
//! every choice they depend on is made here.

use vstd::prelude::*;
use vstd::string::StringExecFns;

use crate::codegen::WickType;
use crate::packet::{Packet, PacketSignal, PacketView, PortedPacket, PortedPacketView};

verus! {

/// A named, typed port in an operation signature.
#[derive(Debug, PartialEq, Eq)]
pub struct Field {
    pub name: String,
    pub ty: WickType,
}

/// One SQL operation: its query text, its ports and the input ports that
/// bind the query's arguments, in order.
#[derive(Debug, PartialEq, Eq)]
pub struct SqlOperationDefinition {
    pub name: String,
    pub query: String,
    pub inputs: Vec<Field>,
    pub outputs: Vec<Field>,
    pub arguments: Vec<String>,
}

/// The SQL component's configuration.
#[derive(Debug, PartialEq, Eq)]
pub struct SqlComponentConfig {
    pub resource: String,
    pub tls: bool,
    pub operations: Vec<SqlOperationDefinition>,
}

/// The SQL component's errors.
#[derive(Debug, PartialEq, Eq, Clone)]
pub enum SqlError {
    /// Operations whose outputs are not the single object-typed `output`
    /// port.
    InvalidOutput(Vec<String>),
    /// A connection url scheme the component does not speak.
    InvalidScheme(String),
    /// An input stream ended while others still carried packets.
    MissingInput(String),
    /// A packet could not be bound to a query argument.
    Prepare(String),
    /// The query failed to execute.
    Failed(String),
}

/// Whether an operation's declared outputs are acceptable: nothing, or
/// exactly one object-typed port named `output`.
pub open spec fn op_output_ok(op: SqlOperationDefinition) -> bool {
    ||| op.outputs@.len() == 0
    ||| (op.outputs@.len() == 1 && op.outputs@[0].name@ == "output"@ && op.outputs@[0].ty
        == WickType::Object)
}

/// The names of the operations with unacceptable outputs, in declaration
/// order.
pub open spec fn bad_op_names(ops: Seq<SqlOperationDefinition>) -> Seq<Seq<char>>
    decreases ops.len(),
{
    if ops.len() == 0 {
        Seq::empty()
    } else {
        (if op_output_ok(ops[0]) {
            Seq::empty()
        } else {
            seq![ops[0].name@]
        }) + bad_op_names(ops.drop_first())
    }
}

proof fn lemma_bad_names_take_step(ops: Seq<SqlOperationDefinition>, i: int)
    requires
        0 <= i < ops.len(),
    ensures
        bad_op_names(ops.take(i + 1)) == bad_op_names(ops.take(i)) + (if op_output_ok(ops[i]) {
            Seq::<Seq<char>>::empty()
        } else {
            seq![ops[i].name@]
        }),
    decreases i,
{
    if i == 0 {
        assert(ops.take(1).len() == 1);
        assert(ops.take(1)[0] == ops[0]);
        assert(ops.take(1).drop_first() =~= Seq::<SqlOperationDefinition>::empty());
        assert(ops.take(0) =~= Seq::<SqlOperationDefinition>::empty());
        assert(bad_op_names(ops.take(1)) =~= bad_op_names(ops.take(0)) + (if op_output_ok(
            ops[0],
        ) {
            Seq::<Seq<char>>::empty()
        } else {
            seq![ops[0].name@]
        }));
    } else {
        lemma_bad_names_take_step(ops.drop_first(), i - 1);
        assert(ops.take(i + 1)[0] == ops[0]);
        assert(ops.take(i)[0] == ops[0]);
        assert(ops.take(i + 1).drop_first() =~= ops.drop_first().take(i));
        assert(ops.take(i).drop_first() =~= ops.drop_first().take(i - 1));
        assert(ops.drop_first()[i - 1] == ops[i]);
        assert(bad_op_names(ops.take(i + 1)) =~= bad_op_names(ops.take(i)) + (if op_output_ok(
            ops[i],
        ) {
            Seq::<Seq<char>>::empty()
        } else {
            seq![ops[i].name@]
        }));
    }
}

/// Validates a configuration: it passes exactly when every operation's
/// outputs are acceptable; otherwise the offending operations are named.
pub fn validate(config: &SqlComponentConfig) -> (r: Result<(), SqlError>)
    ensures
        r is Ok <==> (forall|i: int|
            0 <= i < config.operations@.len() ==> op_output_ok(#[trigger] config.operations@[i])),
        r matches Err(e) ==> e matches SqlError::InvalidOutput(v) && v.deep_view() == bad_op_names(
            config.operations@,
        ),
{
    let mut bad: Vec<String> = Vec::new();
    let n = config.operations.len();
    for i in 0..n
        invariant
            n == config.operations@.len(),
            bad.deep_view() == bad_op_names(config.operations@.take(i as int)),
            (bad@.len() == 0) == (forall|j: int|
                0 <= j < i ==> op_output_ok(#[trigger] config.operations@[j])),
    {
        proof {
            lemma_bad_names_take_step(config.operations@, i as int);
        }
        let op = &config.operations[i];
        let ok = if op.outputs.len() == 0 {
            true
        } else if op.outputs.len() == 1 {
            op.outputs[0].name == String::from_str("output") && matches!(
                op.outputs[0].ty,
                WickType::Object,
            )
        } else {
            false
        };
        if !ok {
            bad.push(op.name.clone());
        }
        proof {
            if ok {
                assert(op_output_ok(config.operations@[i as int]));
            } else {
                assert(!op_output_ok(config.operations@[i as int]));
                assert(bad.deep_view() =~= bad_op_names(
                    config.operations@.take(i as int),
                ) + seq![config.operations@[i as int].name@]);
            }
            assert(bad.deep_view() =~= bad_op_names(config.operations@.take(i + 1)));
        }
    }
    proof {
        assert(config.operations@.take(n as int) =~= config.operations@);
    }
    if bad.len() == 0 {
        Ok(())
    } else {
        Err(SqlError::InvalidOutput(bad))
    }
}

/// Whether some bound packet arrived on the named port.
pub open spec fn has_port(args: Seq<(WickType, PortedPacket)>, port: Seq<char>) -> bool {
    exists|j: int| 0 <= j < args.len() && args[j].1.port@ == port
}

/// Binds incoming packets to an operation's arguments: for each argument
/// name, in order, the position of the packet that arrived on that port.
/// Binding succeeds exactly when every argument has a packet.
pub fn bind_arguments(args: &Vec<(WickType, PortedPacket)>, arg_names: &Vec<String>) -> (r: Result<
    Vec<usize>,
    SqlError,
>)
    ensures
        r is Ok <==> (forall|k: int|
            0 <= k < arg_names@.len() ==> has_port(args@, (#[trigger] arg_names@[k])@)),
        r matches Ok(v) ==> v@.len() == arg_names@.len() && (forall|k: int|
            0 <= k < v@.len() ==> (#[trigger] v@[k]) < args@.len() && args@[v@[k] as int].1.port@
                == arg_names@[k]@),
        r matches Err(e) ==> e matches SqlError::MissingInput(nm) && (exists|k: int|
            0 <= k < arg_names@.len() && (#[trigger] arg_names@[k])@ == nm@ && !has_port(
                args@,
                nm@,
            )),
{
    let mut positions: Vec<usize> = Vec::new();
    let n = arg_names.len();
    let m = args.len();
    for k in 0..n
        invariant
            n == arg_names@.len(),
            m == args@.len(),
            positions@.len() == k,
            forall|j: int|
                0 <= j < k ==> (#[trigger] positions@[j]) < args@.len() && args@[
                    positions@[j] as int
                ].1.port@ == arg_names@[j]@,
            forall|j: int| 0 <= j < k ==> has_port(args@, (#[trigger] arg_names@[j])@),
    {
        let mut found: Option<usize> = None;
        for j in 0..m
            invariant
                m == args@.len(),
                n == arg_names@.len(),
                k < n,
                found matches Some(p) ==> p < args@.len() && args@[p as int].1.port@ == arg_names@[
                    k as int
                ]@,
                found is None ==> (forall|q: int|
                    0 <= q < j ==> (#[trigger] args@[q]).1.port@ != arg_names@[k as int]@),
        {
            if found.is_none() && args[j].1.port == arg_names[k] {
                found = Some(j);
            }
        }
        match found {
            Some(p) => positions.push(p),
            None => {
                return Err(SqlError::MissingInput(arg_names[k].clone()));
            },
        }
    }
    Ok(positions)
}

/// Whether an input slot holds an in-band failure.
pub open spec fn slot_failed(o: Option<PortedPacket>) -> bool {
    o matches Some(p) && (p.packet is Error || p.packet is Exception)
}

/// Whether an input slot holds a `Done`.
pub open spec fn slot_done(o: Option<PortedPacket>) -> bool {
    o matches Some(p) && p.packet == Packet::Signal(PacketSignal::Done)
}

/// The decision one zipped input tick leads to.
#[derive(Debug, PartialEq, Eq)]
pub enum TickDecision {
    /// Every stream ended, or one carried `Done`: the job is over.
    Finished,
    /// Some streams ended while others still carry packets.
    MissingInput,
    /// An input carried an in-band failure; its message is carried along.
    InputError(String),
    /// One packet per input: fire the operation with them.
    Fire(Vec<PortedPacket>),
}

/// The message an in-band failure carries.
pub open spec fn fail_message(o: Option<PortedPacket>) -> Seq<char> {
    match o {
        Some(p) => match p.packet {
            Packet::Error(m) => m@,
            Packet::Exception(m) => m@,
            _ => Seq::empty(),
        },
        None => Seq::empty(),
    }
}

/// Decides what one zipped tick of the input streams means: all streams
/// ended is normal completion, a partial ending is a missing input, an
/// in-band failure is surfaced with the first failing message, a `Done`
/// finishes the job, and otherwise the operation fires with one packet
/// per input.
pub fn decide_tick(incoming: Vec<Option<PortedPacket>>) -> (r: TickDecision)
    ensures
        incoming@.len() > 0 && (forall|j: int| 0 <= j < incoming@.len() ==> incoming@[j] is None)
            ==> r == TickDecision::Finished,
        (exists|j: int| 0 <= j < incoming@.len() && incoming@[j] is None) && (exists|j: int|
            0 <= j < incoming@.len() && incoming@[j] is Some) ==> r == TickDecision::MissingInput,
        (forall|j: int| 0 <= j < incoming@.len() ==> incoming@[j] is Some) && (exists|j: int|
            0 <= j < incoming@.len() && slot_failed(#[trigger] incoming@[j])) ==> (r matches
        TickDecision::InputError(m) && (exists|j: int|
            0 <= j < incoming@.len() && slot_failed(#[trigger] incoming@[j]) && m@ == fail_message(
                incoming@[j],
            ) && (forall|q: int| 0 <= q < j ==> !slot_failed(incoming@[q])))),
        (forall|j: int|
            0 <= j < incoming@.len() ==> incoming@[j] is Some && !slot_failed(
                #[trigger] incoming@[j],
            )) && (exists|j: int| 0 <= j < incoming@.len() && slot_done(#[trigger] incoming@[j]))
            ==> r == TickDecision::Finished,
        (forall|j: int|
            0 <= j < incoming@.len() ==> incoming@[j] is Some && !slot_failed(
                #[trigger] incoming@[j],
            ) && !slot_done(#[trigger] incoming@[j])) ==> (r matches TickDecision::Fire(v)
            && v@.len() == incoming@.len() && (forall|j: int|
            0 <= j < v@.len() ==> (incoming@[j] matches Some(p) && #[trigger] v@[j] == p))),
{
    let n = incoming.len();
    let mut none_count: usize = 0;
    for j in 0..n
        invariant
            n == incoming@.len(),
            none_count <= j,
            (none_count == 0) == (forall|q: int| 0 <= q < j ==> incoming@[q] is Some),
            (none_count == j) == (forall|q: int| 0 <= q < j ==> incoming@[q] is None),
    {
        if incoming[j].is_none() {
            none_count = none_count + 1;
        }
    }
    if none_count > 0 {
        if none_count == n {
            return TickDecision::Finished;
        }
        return TickDecision::MissingInput;
    }
    for j in 0..n
        invariant
            n == incoming@.len(),
            forall|q: int| 0 <= q < n ==> incoming@[q] is Some,
            forall|q: int| 0 <= q < j ==> !slot_failed(#[trigger] incoming@[q]),
    {
        match &incoming[j] {
            Some(p) => match &p.packet {
                Packet::Error(m) => {
                    return TickDecision::InputError(m.clone());
                },
                Packet::Exception(m) => {
                    return TickDecision::InputError(m.clone());
                },
                _ => {},
            },
            None => {},
        }
    }
    let mut has_done = false;
    for j in 0..n
        invariant
            n == incoming@.len(),
            has_done ==> exists|q: int| 0 <= q < n && slot_done(#[trigger] incoming@[q]),
            !has_done ==> (forall|q: int| 0 <= q < j ==> !slot_done(#[trigger] incoming@[q])),
    {
        match &incoming[j] {
            Some(p) => {
                if p.packet.is_done() {
                    has_done = true;
                }
            },
            None => {},
        }
    }
    if has_done {
        return TickDecision::Finished;
    }
    let mut packets: Vec<PortedPacket> = Vec::new();
    let mut rest = incoming;
    let ghost pre = rest@;
    let mut j: usize = 0;
    while j < n
        invariant
            n == pre.len(),
            rest@.len() + j == n,
            rest@ =~= pre.skip(j as int),
            packets@.len() == j,
            forall|q: int| 0 <= q < n ==> pre[q] is Some,
            forall|q: int| 0 <= q < j ==> (pre[q] matches Some(p) && #[trigger] packets@[q] == p),
        decreases n - j,
    {
        let slot = rest.remove(0);
        match slot {
            Some(p) => packets.push(p),
            None => {
                proof {
                    assert(pre[j as int] is Some);
                    assert(false);
                }
            },
        }
        j = j + 1;
        proof {
            assert(rest@ =~= pre.skip(j as int));
        }
    }
    TickDecision::Fire(packets)
}

/// The packet a row-fetch result maps to: a fetched row travels as its
/// JSON text, a fetch failure as an in-band error.
pub open spec fn row_packet(row: Result<String, String>) -> PacketView {
    match row {
        Ok(j) => PacketView::Json(j@),
        Err(m) => PacketView::Error(m@),
    }
}

/// The packets of the fetched rows up to a point, all on `output`.
pub open spec fn ok_packets(rows: Seq<Result<String, String>>) -> Seq<PortedPacketView> {
    Seq::new(
        rows.len(),
        |k: int| PortedPacketView { port: "output"@, packet: row_packet(rows[k]) },
    )
}

/// The stream one executed query emits on `output`: every fetched row as
/// one packet, stopping at the first fetch failure, which travels as an
/// in-band error; and in every case exactly one terminating `Done`.
pub open spec fn row_packets(rows: Seq<Result<String, String>>) -> Seq<PortedPacketView>
    decreases rows.len(),
{
    if rows.len() == 0 {
        seq![
            PortedPacketView { port: "output"@, packet: PacketView::Signal(PacketSignal::Done) },
        ]
    } else {
        match rows[0] {
            Ok(j) => seq![
                PortedPacketView { port: "output"@, packet: PacketView::Json(j@) },
            ] + row_packets(rows.drop_first()),
            Err(m) => seq![
                PortedPacketView { port: "output"@, packet: PacketView::Error(m@) },
                PortedPacketView {
                    port: "output"@,
                    packet: PacketView::Signal(PacketSignal::Done),
                },
            ],
        }
    }
}

proof fn lemma_row_packets_prefix(rows: Seq<Result<String, String>>, i: int)
    requires
        0 <= i <= rows.len(),
        forall|q: int| 0 <= q < i ==> (#[trigger] rows[q]) is Ok,
    ensures
        row_packets(rows) == ok_packets(rows.take(i)) + row_packets(rows.skip(i)),
    decreases i,
{
    if i == 0 {
        assert(rows.take(0) =~= Seq::<Result<String, String>>::empty());
        assert(rows.skip(0) =~= rows);
        assert(ok_packets(rows.take(0)) + row_packets(rows.skip(0)) =~= row_packets(rows));
    } else {
        assert(rows[0] is Ok);
        lemma_row_packets_prefix(rows.drop_first(), i - 1);
        let j = rows[0]->Ok_0;
        assert(row_packets(rows) == seq![
            PortedPacketView { port: "output"@, packet: PacketView::Json(j@) },
        ] + row_packets(rows.drop_first()));
        assert(rows.skip(i) =~= rows.drop_first().skip(i - 1));
        assert(ok_packets(rows.take(i)) =~= seq![
            PortedPacketView { port: "output"@, packet: PacketView::Json(j@) },
        ] + ok_packets(rows.drop_first().take(i - 1)));
        assert(ok_packets(rows.take(i)) + row_packets(rows.skip(i)) =~= row_packets(rows));
    }
}

/// Builds the output stream for one executed query, leaving the edge
/// nothing to decide: each fetched row, as its JSON text, becomes one
/// packet on `output`; the first fetch failure becomes an in-band error
/// and ends the rows; and the stream terminates with exactly one `Done`
/// on `output`, whichever way the rows ended.
pub fn rows_to_packets(rows: Vec<Result<String, String>>) -> (r: Vec<PortedPacket>)
    ensures
        r@.len() == row_packets(rows@).len(),
        forall|q: int|
            0 <= q < r@.len() ==> (#[trigger] r@[q]).port@ == row_packets(rows@)[q].port
                && r@[q].packet@ == row_packets(rows@)[q].packet,
{
    let ghost all = rows@;
    let n = rows.len();
    let mut rest = rows;
    let mut out: Vec<PortedPacket> = Vec::new();
    let mut i: usize = 0;
    while i < n
        invariant
            all == rows@,
            n == all.len(),
            rest@.len() + i == n,
            rest@ =~= all.skip(i as int),
            out@.len() == i,
            forall|q: int| 0 <= q < i ==> (#[trigger] all[q]) is Ok,
            forall|q: int|
                0 <= q < i ==> (#[trigger] out@[q]).port@ == "output"@ && out@[q].packet@
                    == row_packet(all[q]),
        decreases n - i,
    {
        let item = rest.remove(0);
        proof {
            assert(item == all[i as int]);
        }
        match item {
            Ok(j) => {
                out.push(PortedPacket { port: String::from_str("output"), packet: Packet::Json(j) });
                i = i + 1;
                proof {
                    assert(rest@ =~= all.skip(i as int));
                    assert(all[i - 1] == Ok::<String, String>(j));
                }
            },
            Err(m) => {
                proof {
                    lemma_row_packets_prefix(all, i as int);
                    assert(all.skip(i as int)[0] == all[i as int]);
                    assert(all[i as int] == Err::<String, String>(m));
                    assert(row_packets(all) =~= ok_packets(all.take(i as int)) + seq![
                        PortedPacketView { port: "output"@, packet: PacketView::Error(m@) },
                        PortedPacketView {
                            port: "output"@,
                            packet: PacketView::Signal(PacketSignal::Done),
                        },
                    ]);
                }
                out.push(
                    PortedPacket { port: String::from_str("output"), packet: Packet::Error(m) },
                );
                out.push(
                    PortedPacket {
                        port: String::from_str("output"),
                        packet: Packet::Signal(PacketSignal::Done),
                    },
                );
                proof {
                    assert forall|q: int| 0 <= q < out@.len() implies (#[trigger] out@[q]).port@
                        == row_packets(all)[q].port && out@[q].packet@ == row_packets(
                        all,
                    )[q].packet by {
                        if q < i {
                            assert(row_packets(all)[q] == ok_packets(all.take(i as int))[q]);
                            assert(row_packet(all.take(i as int)[q]) == row_packet(all[q]));
                        }
                    }
                }
                return out;
            },
        }
    }
    proof {
        lemma_row_packets_prefix(all, n as int);
        assert(all.skip(n as int) =~= Seq::<Result<String, String>>::empty());
        assert(all.take(n as int) =~= all);
        assert(row_packets(all) =~= ok_packets(all) + seq![
            PortedPacketView { port: "output"@, packet: PacketView::Signal(PacketSignal::Done) },
        ]);
    }
    out.push(
        PortedPacket {
            port: String::from_str("output"),
            packet: Packet::Signal(PacketSignal::Done),
        },
    );
    proof {
        assert forall|q: int| 0 <= q < out@.len() implies (#[trigger] out@[q]).port@
            == row_packets(all)[q].port && out@[q].packet@ == row_packets(all)[q].packet by {
            if q < n {
                assert(row_packets(all)[q] == ok_packets(all)[q]);
            }
        }
    }
    out
}

} // verus!
