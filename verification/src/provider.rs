//! The provider abstraction's data: execution statistics, the types a
//! provider hosts, and the decision over a network invocation's answer.

use vstd::prelude::*;
use vstd::string::StringExecFns;

use crate::error::NetworkError;
use crate::packet::PortedPacket;

verus! {

/// Aggregated call-duration counters.
#[derive(Debug, Clone, Copy, PartialEq, Eq, Structural)]
pub struct DurationStatistics {
    pub max_time: u64,
    pub min_time: u64,
    pub average: u64,
}

/// Per-operation or aggregate execution statistics.
#[derive(Debug, Clone, Copy, PartialEq, Eq, Structural)]
pub struct Statistics {
    pub num_calls: u64,
    pub execution_duration: DurationStatistics,
}

/// A type a provider hosts: a whole schematic or a single component.
#[derive(Debug, Clone, PartialEq, Eq)]
pub enum HostedType {
    Schematic(String),
    Component(String),
}

/// Reports execution statistics: one record, counting a single call when
/// a specific operation is named and none for the aggregate query.
pub fn report_statistics(id: Option<String>) -> (r: Vec<Statistics>)
    ensures
        r@.len() == 1,
        id is Some ==> r@[0] == (Statistics {
            num_calls: 1,
            execution_duration: DurationStatistics { max_time: 0, min_time: 0, average: 0 },
        }),
        id is None ==> r@[0] == (Statistics {
            num_calls: 0,
            execution_duration: DurationStatistics { max_time: 0, min_time: 0, average: 0 },
        }),
{
    let num_calls: u64 = if id.is_some() {
        1
    } else {
        0
    };
    let mut v: Vec<Statistics> = Vec::new();
    v.push(
        Statistics {
            num_calls,
            execution_duration: DurationStatistics { max_time: 0, min_time: 0, average: 0 },
        },
    );
    v
}

/// Wraps the registered schematic names as hosted types, in order.
pub fn list_registered(schematics: Vec<String>) -> (r: Vec<HostedType>)
    ensures
        r@.len() == schematics@.len(),
        forall|i: int|
            0 <= i < r@.len() ==> ((#[trigger] r@[i]) matches HostedType::Schematic(n) && n@
                == schematics@[i]@),
{
    let n = schematics.len();
    let mut rest = schematics;
    let ghost pre = rest@;
    let mut out: Vec<HostedType> = Vec::new();
    let mut i: usize = 0;
    while i < n
        invariant
            n == pre.len(),
            rest@.len() + i == n,
            rest@ =~= pre.skip(i as int),
            out@.len() == i,
            forall|q: int|
                0 <= q < i ==> ((#[trigger] out@[q]) matches HostedType::Schematic(nm) && nm@
                    == pre[q]@),
        decreases n - i,
    {
        let name = rest.remove(0);
        out.push(HostedType::Schematic(name));
        i = i + 1;
        proof {
            assert(rest@ =~= pre.skip(i as int));
        }
    }
    out
}

/// A network invocation's answer: a stream of ported packets, or a
/// failure message.
#[derive(Debug, Clone, PartialEq, Eq)]
pub enum ServiceResponse {
    Stream(Vec<PortedPacket>),
    Error(String),
}

/// Turns a network invocation's answer into the provider's result: the
/// stream passes through untouched; a failure becomes an execution error
/// naming the cause.
pub fn handle_response(result: ServiceResponse) -> (r: Result<Vec<PortedPacket>, NetworkError>)
    ensures
        result matches ServiceResponse::Stream(v) ==> r == Ok::<Vec<PortedPacket>, NetworkError>(
            v,
        ),
        result matches ServiceResponse::Error(m) ==> (r matches Err(e) && e matches
            NetworkError::ExecutionError(msg) && msg@ == "Invocation failed: "@ + m@),
{
    match result {
        ServiceResponse::Stream(rx) => Ok(rx),
        ServiceResponse::Error(m) => {
            let mut msg = String::from_str("Invocation failed: ");
            msg.append(m.as_str());
            Err(NetworkError::ExecutionError(msg))
        },
    }
}

} // verus!
