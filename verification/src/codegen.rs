//! Code generation for component interfaces: maps an interface type to the
//! Rust type text it compiles to, tracking which extra dependencies the
//! generated code will need.

use vstd::prelude::*;
use vstd::string::StringExecFns;

verus! {

/// Whether a type is being expanded for an input or an output position.
#[derive(Debug, Clone, Copy, PartialEq, Eq, Structural)]
pub enum Direction {
    In,
    Out,
}

/// A dependency the generated code may need.
#[derive(Debug, Clone, Copy, PartialEq, Eq, Structural)]
pub enum Dependency {
    Bytes,
    WickComponent,
    SerdeJson,
}

/// An interface type signature.
#[derive(Debug, PartialEq, Eq)]
pub enum WickType {
    Bool,
    U8,
    U16,
    U32,
    U64,
    I8,
    I16,
    I32,
    I64,
    F32,
    F64,
    String,
    Bytes,
    Object,
    Datetime,
    Custom(String),
    Link(String),
    Ref(String),
    AnonymousStruct,
    List { ty: Box<WickType> },
    Optional { ty: Box<WickType> },
    HashMap { key: Box<WickType>, value: Box<WickType> },
}

/// The types the generator can expand today; date-times, type references
/// and anonymous structs are not among them, at any nesting depth.
pub open spec fn type_supported(t: WickType) -> bool
    decreases t,
{
    match t {
        WickType::Datetime => false,
        WickType::Ref(_) => false,
        WickType::AnonymousStruct => false,
        WickType::List { ty } => type_supported(*ty),
        WickType::Optional { ty } => type_supported(*ty),
        WickType::HashMap { key, value } => type_supported(*key) && type_supported(*value),
        _ => true,
    }
}

/// The Rust type text an interface type expands to.
pub open spec fn type_text(t: WickType, imported: bool) -> Seq<char>
    decreases t,
{
    match t {
        WickType::Bool => "bool"@,
        WickType::U8 => "u8"@,
        WickType::U16 => "u16"@,
        WickType::U32 => "u32"@,
        WickType::U64 => "u64"@,
        WickType::I8 => "i8"@,
        WickType::I16 => "i16"@,
        WickType::I32 => "i32"@,
        WickType::I64 => "i64"@,
        WickType::F32 => "f32"@,
        WickType::F64 => "f64"@,
        WickType::String => "String"@,
        WickType::Bytes => "bytes::Bytes"@,
        WickType::Object => "Value"@,
        WickType::Datetime => Seq::empty(),
        WickType::Custom(name) => if imported {
            name@
        } else {
            "types::"@ + name@
        },
        WickType::Link(_) => "wick_component::packet::ComponentReference"@,
        WickType::Ref(_) => Seq::empty(),
        WickType::AnonymousStruct => Seq::empty(),
        WickType::List { ty } => "Vec<"@ + type_text(*ty, imported) + ">"@,
        WickType::Optional { ty } => "Option<"@ + type_text(*ty, imported) + ">"@,
        WickType::HashMap { key, value } => "std::collections::HashMap<"@ + type_text(*key, imported)
            + ","@ + type_text(*value, imported) + ">"@,
    }
}

/// Whether expanding a type obliges the generated code to pull in a
/// dependency.
pub open spec fn type_needs_dep(t: WickType, d: Dependency) -> bool
    decreases t,
{
    match t {
        WickType::Bytes => d == Dependency::Bytes,
        WickType::Object => d == Dependency::SerdeJson,
        WickType::Link(_) => d == Dependency::WickComponent,
        WickType::List { ty } => type_needs_dep(*ty, d),
        WickType::Optional { ty } => type_needs_dep(*ty, d),
        WickType::HashMap { key, value } => type_needs_dep(*key, d) || type_needs_dep(*value, d),
        _ => false,
    }
}

/// Whether the dependency list holds `d`.
pub open spec fn contains_dep(deps: Seq<Dependency>, d: Dependency) -> bool {
    exists|i: int| 0 <= i < deps.len() && deps[i] == d
}

/// How expanding a type grows the collected dependencies: afterwards the
/// list holds exactly what it held before plus what the type obliges.
pub open spec fn deps_tracked(pre: Seq<Dependency>, post: Seq<Dependency>, t: WickType) -> bool {
    forall|d: Dependency|
        #[trigger] contains_dep(post, d) <==> (contains_dep(pre, d) || type_needs_dep(t, d))
}

/// The generator's running state: whether raw packet passthrough was asked
/// for, and the dependencies collected so far.
#[derive(Debug)]
pub struct Config {
    pub raw: bool,
    pub deps: Vec<Dependency>,
}

impl Config {
    /// A fresh configuration with no collected dependencies.
    pub fn new(raw: bool) -> (r: Config)
        ensures
            r.raw == raw,
            r.deps@.len() == 0,
    {
        Config { raw, deps: Vec::new() }
    }

    /// Records that the generated code needs `dep`; idempotent.
    pub fn add_dep(&mut self, dep: Dependency) -> (nothing: ())
        ensures
            final(self).raw == old(self).raw,
            forall|d: Dependency|
                contains_dep(final(self).deps@, d) <==> (contains_dep(old(self).deps@, d) || d
                    == dep),
    {
        let n = self.deps.len();
        for i in 0..n
            invariant
                n == self.deps@.len(),
                *self == *old(self),
                forall|j: int| 0 <= j < i ==> self.deps@[j] != dep,
        {
            if self.deps[i] == dep {
                return ;
            }
        }
        self.deps.push(dep);
        proof {
            assert forall|d: Dependency| contains_dep(old(self).deps@, d) implies contains_dep(
                self.deps@,
                d,
            ) by {
                let i = choose|i: int|
                    0 <= i < old(self).deps@.len() && old(self).deps@[i] == d;
                assert(self.deps@[i] == d);
            }
            assert forall|d: Dependency| contains_dep(self.deps@, d) implies (contains_dep(
                old(self).deps@,
                d,
            ) || d == dep) by {
                let i = choose|i: int| 0 <= i < self.deps@.len() && self.deps@[i] == d;
                if i < self.deps@.len() - 1 {
                    assert(old(self).deps@[i] == d);
                }
            }
            assert(self.deps@[self.deps@.len() - 1] == dep);
        }
    }
}

/// Expands an interface type to the Rust type text the generated code will
/// use. With raw passthrough on, input positions take whole packets
/// instead; otherwise the text follows `type_text` and every dependency
/// the type obliges is collected, with nothing else added.
pub fn expand_type(config: &mut Config, dir: Direction, imported: bool, ty: &WickType) -> (r:
    String)
    requires
        type_supported(*ty),
    ensures
        final(config).raw == old(config).raw,
        old(config).raw && dir != Direction::Out ==> r@ == "wick_component::packet::Packet"@
            && final(config).deps@ == old(config).deps@,
        !(old(config).raw && dir != Direction::Out) ==> r@ == type_text(*ty, imported)
            && deps_tracked(old(config).deps@, final(config).deps@, *ty),
    decreases *ty,
{
    if config.raw && !matches!(dir, Direction::Out) {
        return String::from_str("wick_component::packet::Packet");
    }
    match ty {
        WickType::Bool => String::from_str("bool"),
        WickType::U8 => String::from_str("u8"),
        WickType::U16 => String::from_str("u16"),
        WickType::U32 => String::from_str("u32"),
        WickType::U64 => String::from_str("u64"),
        WickType::I8 => String::from_str("i8"),
        WickType::I16 => String::from_str("i16"),
        WickType::I32 => String::from_str("i32"),
        WickType::I64 => String::from_str("i64"),
        WickType::F32 => String::from_str("f32"),
        WickType::F64 => String::from_str("f64"),
        WickType::String => String::from_str("String"),
        WickType::Datetime => String::new(),
        WickType::Ref(_) => String::new(),
        WickType::AnonymousStruct => String::new(),
        WickType::Bytes => {
            config.add_dep(Dependency::Bytes);
            String::from_str("bytes::Bytes")
        },
        WickType::Object => {
            config.add_dep(Dependency::SerdeJson);
            String::from_str("Value")
        },
        WickType::Link(_) => {
            config.add_dep(Dependency::WickComponent);
            String::from_str("wick_component::packet::ComponentReference")
        },
        WickType::Custom(name) => {
            if imported {
                name.clone()
            } else {
                let mut s = String::from_str("types::");
                s.append(name.as_str());
                s
            }
        },
        WickType::List { ty: elem } => {
            let inner = expand_type(config, dir, imported, &**elem);
            proof {
                assert forall|d: Dependency| #[trigger] contains_dep(config.deps@, d) <==> (
                contains_dep(old(config).deps@, d) || type_needs_dep(*ty, d)) by {
                    assert(deps_tracked(old(config).deps@, config.deps@, **elem));
                }
            }
            let mut s = String::from_str("Vec<");
            s.append(inner.as_str());
            s.append(">");
            s
        },
        WickType::Optional { ty: elem } => {
            let inner = expand_type(config, dir, imported, &**elem);
            proof {
                assert forall|d: Dependency| #[trigger] contains_dep(config.deps@, d) <==> (
                contains_dep(old(config).deps@, d) || type_needs_dep(*ty, d)) by {
                    assert(deps_tracked(old(config).deps@, config.deps@, **elem));
                }
            }
            let mut s = String::from_str("Option<");
            s.append(inner.as_str());
            s.append(">");
            s
        },
        WickType::HashMap { key, value } => {
            let k = expand_type(config, dir, imported, &**key);
            let ghost mid = config.deps@;
            let v = expand_type(config, dir, imported, &**value);
            proof {
                assert forall|d: Dependency| #[trigger] contains_dep(config.deps@, d) <==> (
                contains_dep(old(config).deps@, d) || type_needs_dep(*ty, d)) by {
                    assert(deps_tracked(old(config).deps@, mid, **key));
                    assert(deps_tracked(mid, config.deps@, **value));
                    assert(contains_dep(mid, d) <==> (contains_dep(old(config).deps@, d)
                        || type_needs_dep(**key, d)));
                }
            }
            let mut s = String::from_str("std::collections::HashMap<");
            s.append(k.as_str());
            s.append(",");
            s.append(v.as_str());
            s.append(">");
            s
        },
    }
}

} // verus!
