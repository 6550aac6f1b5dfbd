//! Entity addressing: tagged references to schematics, components and ports,
//! with their canonical URL and key forms.

use vstd::prelude::*;
use vstd::string::StringExecFns;

verus! {

/// A port on a named instance reference within a schematic.
#[derive(Debug, Clone, PartialEq, Eq, Hash)]
pub struct PortEntity {
    pub schematic: String,
    pub reference: String,
    pub name: String,
}

/// A tagged reference to an addressable thing on the network: a schematic,
/// a component, or a single port of an instance within a schematic.
#[derive(Debug, Clone, PartialEq, Eq)]
pub enum VinoEntity {
    Schematic(String),
    Port(PortEntity),
    Component(String),
}

/// The canonical URL form of an entity.
pub open spec fn url_chars(e: VinoEntity) -> Seq<char> {
    match e {
        VinoEntity::Schematic(name) => "wasmbus://schematic/"@ + name@,
        VinoEntity::Component(name) => "wasmbus://component/"@ + name@,
        VinoEntity::Port(port) => "wasmbus://"@ + port.schematic@ + "::"@ + port.name@ + ":"@
            + port.reference@,
    }
}

/// The unique key form of an entity, used as a routing key.
pub open spec fn key_chars(e: VinoEntity) -> Seq<char> {
    match e {
        VinoEntity::Schematic(name) => "schematic:"@ + name@,
        VinoEntity::Component(name) => "component:"@ + name@,
        VinoEntity::Port(port) => port.schematic@ + "::"@ + port.reference@ + ":"@ + port.name@,
    }
}

impl VinoEntity {
    /// The URL of the entity.
    pub fn url(&self) -> (r: String)
        ensures
            r@ == url_chars(*self),
    {
        match self {
            VinoEntity::Schematic(name) => {
                let mut s = String::from_str("wasmbus://schematic/");
                s.append(name.as_str());
                s
            },
            VinoEntity::Component(name) => {
                let mut s = String::from_str("wasmbus://component/");
                s.append(name.as_str());
                s
            },
            VinoEntity::Port(port) => {
                let mut s = String::from_str("wasmbus://");
                s.append(port.schematic.as_str());
                s.append("::");
                s.append(port.name.as_str());
                s.append(":");
                s.append(port.reference.as_str());
                s
            },
        }
    }

    /// The unique key of the entity.
    pub fn key(&self) -> (r: String)
        ensures
            r@ == key_chars(*self),
    {
        match self {
            VinoEntity::Schematic(name) => {
                let mut s = String::from_str("schematic:");
                s.append(name.as_str());
                s
            },
            VinoEntity::Component(name) => {
                let mut s = String::from_str("component:");
                s.append(name.as_str());
                s
            },
            VinoEntity::Port(port) => {
                let mut s = port.schematic.clone();
                s.append("::");
                s.append(port.reference.as_str());
                s.append(":");
                s.append(port.name.as_str());
                s
            },
        }
    }
}

} // verus!
