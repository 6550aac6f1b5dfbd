//! The schematic model: a named dataflow graph of component instances and
//! port-to-port connections, with optional per-port defaults. A schematic
//! is validated once, at network initialisation, against the operations'
//! signatures; transactions only ever see the validated form.
//!
//! The well-known endpoints `<input>` and `<output>` stand for the
//! schematic's own input and output sides.

use vstd::prelude::*;

use crate::error::ValidationError;

verus! {

/// One endpoint of a connection: a port on a named instance, or on the
/// schematic's own input or output side.
#[derive(Debug, Clone, PartialEq, Eq)]
pub struct PortRef {
    pub instance: String,
    pub port: String,
}

/// The operations the native function table offers. Every operation reads
/// one required port named `input` and writes one port named `output`.
#[derive(Debug, Clone, Copy, PartialEq, Eq, Structural)]
pub enum Operation {
    /// Emits its input unchanged.
    Echo,
    /// Reverses the bytes of its input value.
    Reverse,
    /// Uppercases the ASCII letters of its input value.
    Upper,
}

/// A named usage of an operation within a schematic.
#[derive(Debug, Clone, PartialEq, Eq)]
pub struct InstanceDef {
    pub name: String,
    pub operation: Operation,
}

/// A directed connection from an upstream port to a downstream port.
#[derive(Debug, Clone, PartialEq, Eq)]
pub struct ConnectionDef {
    pub from: PortRef,
    pub to: PortRef,
}

/// A raw schematic as a manifest describes it: instances, connections,
/// and default values (as JSON text) for instance inputs that no upstream
/// feeds.
#[derive(Debug, Clone, PartialEq, Eq)]
pub struct SchematicDef {
    pub name: String,
    pub instances: Vec<InstanceDef>,
    pub connections: Vec<ConnectionDef>,
    pub defaults: Vec<(String, String)>,
}

/// Whether the instance list defines `name`.
pub open spec fn has_instance(instances: Seq<InstanceDef>, name: Seq<char>) -> bool {
    exists|i: int| 0 <= i < instances.len() && instances[i].name@ == name
}

/// Whether a connection's upstream endpoint is admissible: the schematic's
/// input side with any port name, or a defined instance's `output` port.
pub open spec fn from_valid(instances: Seq<InstanceDef>, from: PortRef) -> bool {
    ||| from.instance@ == "<input>"@
    ||| (has_instance(instances, from.instance@) && from.port@ == "output"@)
}

/// Whether a connection's downstream endpoint is admissible: the
/// schematic's output side with any port name, or a defined instance's
/// `input` port.
pub open spec fn to_valid(instances: Seq<InstanceDef>, to: PortRef) -> bool {
    ||| to.instance@ == "<output>"@
    ||| (has_instance(instances, to.instance@) && to.port@ == "input"@)
}

/// Whether two downstream endpoints are the same port.
pub open spec fn same_target(a: PortRef, b: PortRef) -> bool {
    a.instance@ == b.instance@ && a.port@ == b.port@
}

/// Whether a schematic definition is valid: every connection endpoint
/// exists and has the right port name for its side, no downstream port has
/// two inbound connections, every default names a defined instance, and no
/// default sits on an input that an upstream already feeds.
pub open spec fn schematic_valid(def: SchematicDef) -> bool {
    &&& forall|i: int|
        0 <= i < def.connections@.len() ==> from_valid(
            def.instances@,
            #[trigger] def.connections@[i].from,
        )
    &&& forall|i: int|
        0 <= i < def.connections@.len() ==> to_valid(
            def.instances@,
            #[trigger] def.connections@[i].to,
        )
    &&& forall|i: int, j: int|
        0 <= i < def.connections@.len() && 0 <= j < def.connections@.len() && i != j
            ==> !same_target(def.connections@[i].to, def.connections@[j].to)
    &&& forall|i: int|
        0 <= i < def.defaults@.len() ==> has_instance(
            def.instances@,
            #[trigger] def.defaults@[i].0@,
        )
    &&& forall|i: int, j: int|
        0 <= i < def.defaults@.len() && 0 <= j < def.connections@.len() ==> !(
        def.connections@[j].to.instance@ == def.defaults@[i].0@ && def.connections@[j].to.port@
            == "input"@)
}

/// A validated schematic: the definition is carried along with the
/// evidence that it passed validation.
#[derive(Debug, Clone, PartialEq, Eq)]
pub struct SchematicModel {
    pub def: SchematicDef,
}

impl SchematicModel {
    /// The invariant every schematic model carries.
    pub open spec fn wf(&self) -> bool {
        schematic_valid(self.def)
    }
}

/// Looks up an instance by name, returning its index.
pub fn find_instance(instances: &Vec<InstanceDef>, name: &str) -> (r: Option<usize>)
    ensures
        r matches Some(i) ==> i < instances@.len() && instances@[i as int].name@ == name@,
        r is None ==> !has_instance(instances@, name@),
{
    let owned = name.to_owned();
    let n = instances.len();
    for i in 0..n
        invariant
            n == instances@.len(),
            owned@ == name@,
            forall|j: int| 0 <= j < i ==> instances@[j].name@ != name@,
    {
        if instances[i].name == owned {
            return Some(i);
        }
    }
    None
}

/// Validates a schematic definition. Validation succeeds exactly when the
/// definition is valid; a missing endpoint and a malformed graph are told
/// apart in the error.
pub fn validate(def: SchematicDef) -> (r: Result<SchematicModel, ValidationError>)
    ensures
        r matches Ok(m) ==> m.wf() && m.def == def,
        r is Ok <==> schematic_valid(def),
{
    proof {
        reveal_strlit("<input>");
        reveal_strlit("<output>");
        reveal_strlit("input");
        reveal_strlit("output");
    }
    let schematic_input = String::from_str("<input>");
    let schematic_output = String::from_str("<output>");
    let port_in = String::from_str("input");
    let port_out = String::from_str("output");
    let nc = def.connections.len();
    for i in 0..nc
        invariant
            nc == def.connections@.len(),
            schematic_input@ == "<input>"@,
            schematic_output@ == "<output>"@,
            port_in@ == "input"@,
            port_out@ == "output"@,
            forall|j: int|
                0 <= j < i ==> from_valid(def.instances@, #[trigger] def.connections@[j].from),
            forall|j: int|
                0 <= j < i ==> to_valid(def.instances@, #[trigger] def.connections@[j].to),
    {
        let c = &def.connections[i];
        if c.from.instance == schematic_input {
        } else if find_instance(&def.instances, c.from.instance.as_str()).is_some() && c.from.port
            == port_out {
        } else {
            return Err(ValidationError::ConnectionEndpointMissing(c.from.instance.clone()));
        }
        if c.to.instance == schematic_output {
        } else if find_instance(&def.instances, c.to.instance.as_str()).is_some() && c.to.port
            == port_in {
        } else {
            return Err(ValidationError::ConnectionEndpointMissing(c.to.instance.clone()));
        }
    }
    for i in 0..nc
        invariant
            nc == def.connections@.len(),
            forall|j1: int, j2: int|
                0 <= j1 < i && 0 <= j2 < def.connections@.len() && j1 != j2 ==> !same_target(
                    def.connections@[j1].to,
                    def.connections@[j2].to,
                ),
    {
        for k in 0..nc
            invariant
                nc == def.connections@.len(),
                i < nc,
                forall|j1: int, j2: int|
                    0 <= j1 < i && 0 <= j2 < def.connections@.len() && j1 != j2 ==> !same_target(
                        def.connections@[j1].to,
                        def.connections@[j2].to,
                    ),
                forall|j2: int|
                    0 <= j2 < k && j2 != i ==> !same_target(
                        def.connections@[i as int].to,
                        #[trigger] def.connections@[j2].to,
                    ),
        {
            if k != i {
                let a = &def.connections[i].to;
                let b = &def.connections[k].to;
                if a.instance == b.instance && a.port == b.port {
                    proof {
                        assert(same_target(
                            def.connections@[i as int].to,
                            def.connections@[k as int].to,
                        ));
                    }
                    return Err(ValidationError::InvalidModel(1));
                }
            }
        }
        proof {
            assert(forall|j2: int|
                0 <= j2 < def.connections@.len() && j2 != i ==> !same_target(
                    def.connections@[i as int].to,
                    #[trigger] def.connections@[j2].to,
                ));
            assert(forall|j1: int, j2: int|
                0 <= j1 < i + 1 && 0 <= j2 < def.connections@.len() && j1 != j2 ==> !same_target(
                    def.connections@[j1].to,
                    def.connections@[j2].to,
                ));
        }
    }
    let nd = def.defaults.len();
    for i in 0..nd
        invariant
            nd == def.defaults@.len(),
            nc == def.connections@.len(),
            schematic_input@ == "<input>"@,
            port_in@ == "input"@,
            forall|j: int|
                0 <= j < i ==> has_instance(def.instances@, #[trigger] def.defaults@[j].0@),
            forall|j1: int, j2: int|
                0 <= j1 < i && 0 <= j2 < def.connections@.len() ==> !(
                def.connections@[j2].to.instance@ == def.defaults@[j1].0@
                    && def.connections@[j2].to.port@ == "input"@),
    {
        if find_instance(&def.instances, def.defaults[i].0.as_str()).is_none() {
            return Err(ValidationError::InstanceNotFound(def.defaults[i].0.clone()));
        }
        for k in 0..nc
            invariant
                nd == def.defaults@.len(),
                nc == def.connections@.len(),
                i < nd,
                port_in@ == "input"@,
                forall|j2: int|
                    0 <= j2 < k ==> !(#[trigger] def.connections@[j2].to.instance@
                        == def.defaults@[i as int].0@ && def.connections@[j2].to.port@
                        == "input"@),
        {
            let c = &def.connections[k];
            if c.to.instance == def.defaults[i].0 && c.to.port == port_in {
                return Err(ValidationError::InvalidModel(2));
            }
        }
    }
    Ok(SchematicModel { def })
}

} // verus!
