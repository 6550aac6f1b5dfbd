//! The network service: the registry of validated schematics, the lookup
//! that resolves a live invocation id for the guest bridge, and the
//! external entry point that opens a transaction for a schematic and
//! drives it.

use vstd::prelude::*;
use vstd::string::StringExecFns;

use crate::engine::{
    defaults_spec, fresh_tx, run, seed_all, seed_defaults, seed_inputs, steps_to, tick_fires,
    tx_matches, Transaction, TxView,
};
use crate::schematic::ConnectionDef;
use crate::entity::VinoEntity;
use crate::error::{NetworkError, TransportError};
use crate::packet::{check_port_streams, streams_balanced, PortedPacket};
use crate::schematic::SchematicModel;

verus! {

/// Whether a schematic of the given name is registered.
pub open spec fn has_schematic(schematics: Seq<SchematicModel>, name: Seq<char>) -> bool {
    exists|i: int| 0 <= i < schematics.len() && schematics[i].def.name@ == name
}

/// Whether a live invocation of the given id is registered.
pub open spec fn has_reference(
    references: Seq<(String, (String, String, VinoEntity))>,
    inv_id: Seq<char>,
) -> bool {
    exists|i: int| 0 <= i < references.len() && references[i].0@ == inv_id
}

/// The registry behind the network's entry point: every registered
/// schematic has passed validation, and live invocations are resolvable
/// to their transaction, schematic and target entity.
pub struct NetworkService {
    pub schematics: Vec<SchematicModel>,
    pub references: Vec<(String, (String, String, VinoEntity))>,
}

/// The service invariant: only validated schematics are registered.
pub open spec fn service_wf(s: NetworkService) -> bool {
    forall|i: int| 0 <= i < s.schematics@.len() ==> (#[trigger] s.schematics@[i]).wf()
}

/// Copies an entity value.
fn duplicate_entity(e: &VinoEntity) -> (r: VinoEntity)
    ensures
        r == *e,
{
    match e {
        VinoEntity::Schematic(name) => VinoEntity::Schematic(name.clone()),
        VinoEntity::Component(name) => VinoEntity::Component(name.clone()),
        VinoEntity::Port(port) => VinoEntity::Port(
            crate::entity::PortEntity {
                schematic: port.schematic.clone(),
                reference: port.reference.clone(),
                name: port.name.clone(),
            },
        ),
    }
}

impl NetworkService {
    /// An empty registry.
    pub fn new() -> (r: NetworkService)
        ensures
            r.schematics@.len() == 0,
            r.references@.len() == 0,
            service_wf(r),
    {
        NetworkService { schematics: Vec::new(), references: Vec::new() }
    }

    /// Registers a validated schematic.
    pub fn register_schematic(&mut self, model: SchematicModel)
        requires
            service_wf(*old(self)),
            model.wf(),
        ensures
            service_wf(*final(self)),
            final(self).schematics@ == old(self).schematics@.push(model),
            final(self).references@ == old(self).references@,
    {
        self.schematics.push(model);
    }

    /// The names of the registered schematics, in registration order.
    pub fn list_schematics(&self) -> (r: Vec<String>)
        ensures
            r.deep_view() == Seq::new(
                self.schematics@.len(),
                |i: int| self.schematics@[i].def.name@,
            ),
    {
        let mut names: Vec<String> = Vec::new();
        let n = self.schematics.len();
        for i in 0..n
            invariant
                n == self.schematics@.len(),
                names@.len() == i,
                forall|j: int|
                    0 <= j < i ==> (#[trigger] names@[j])@ == self.schematics@[j].def.name@,
        {
            names.push(self.schematics[i].def.name.clone());
        }
        proof {
            assert(names.deep_view() =~= Seq::new(
                self.schematics@.len(),
                |i: int| self.schematics@[i].def.name@,
            ));
        }
        names
    }

    /// Looks up a registered schematic by name; the first registration
    /// under the name wins.
    fn find_schematic(&self, name: &str) -> (r: Option<usize>)
        ensures
            r matches Some(i) ==> i < self.schematics@.len() && self.schematics@[
                i as int
            ].def.name@ == name@ && (forall|j: int|
                0 <= j < i ==> self.schematics@[j].def.name@ != name@),
            r is None ==> !has_schematic(self.schematics@, name@),
    {
        let owned = name.to_owned();
        let n = self.schematics.len();
        for i in 0..n
            invariant
                n == self.schematics@.len(),
                owned@ == name@,
                forall|j: int| 0 <= j < i ==> (#[trigger] self.schematics@[j]).def.name@ != name@,
        {
            if self.schematics[i].def.name == owned {
                return Some(i);
            }
        }
        None
    }

    /// Records that an invocation is live, for the guest bridge to
    /// resolve later.
    pub fn register_reference(
        &mut self,
        inv_id: String,
        tx_id: String,
        schematic: String,
        entity: VinoEntity,
    )
        ensures
            final(self).schematics@ == old(self).schematics@,
            final(self).references@ == old(self).references@.push(
                (inv_id, (tx_id, schematic, entity)),
            ),
    {
        self.references.push((inv_id, (tx_id, schematic, entity)));
    }

    /// Resolves a live invocation id to its transaction id, schematic
    /// name and target entity; the first registration under the id wins.
    pub fn get_reference(&self, inv_id: &str) -> (r: Option<(String, String, VinoEntity)>)
        ensures
            r is None ==> !has_reference(self.references@, inv_id@),
            r matches Some(t) ==> exists|i: int|
                0 <= i < self.references@.len() && (#[trigger] self.references@[i]).0@ == inv_id@
                    && self.references@[i].1 == t && (forall|j: int|
                    0 <= j < i ==> self.references@[j].0@ != inv_id@),
    {
        let owned = inv_id.to_owned();
        let n = self.references.len();
        for i in 0..n
            invariant
                n == self.references@.len(),
                owned@ == inv_id@,
                forall|j: int| 0 <= j < i ==> (#[trigger] self.references@[j]).0@ != inv_id@,
        {
            if self.references[i].0 == owned {
                let entry = &self.references[i].1;
                let r = Some(
                    (entry.0.clone(), entry.1.clone(), duplicate_entity(&entry.2)),
                );
                proof {
                    assert((self.references@[i as int]).0@ == inv_id@);
                }
                return r;
            }
        }
        None
    }

    /// The external entry point: opens a transaction for the named
    /// schematic, seeds the caller's payload and the schematic's
    /// defaults, and drives the transaction for at most `max_ticks`
    /// scheduling ticks of the step relation, stopping only at the tick
    /// budget or when nothing is ready. An unknown schematic name is
    /// refused, and so is a payload whose brackets are unbalanced on any
    /// input port: that is a fatal framing error for the transaction.
    pub fn request(
        &self,
        name: &str,
        tx_id: String,
        inputs: &Vec<PortedPacket>,
        max_ticks: usize,
    ) -> (r: Result<Transaction, NetworkError>)
        ensures
            r is Ok <==> (has_schematic(self.schematics@, name@) && streams_balanced(
                inputs.deep_view(),
            )),
            !has_schematic(self.schematics@, name@) ==> (r matches Err(e) && e matches
                NetworkError::SchematicNotFound(n) && n@ == name@),
            has_schematic(self.schematics@, name@) && !streams_balanced(inputs.deep_view()) ==> r
                == Err::<Transaction, NetworkError>(
                NetworkError::TransportError(TransportError::BracketImbalance),
            ),
            r matches Ok(t) ==> t@.tx_id == tx_id@ && exists|i: int|
                {
                    &&& 0 <= i < self.schematics@.len()
                    &&& (#[trigger] self.schematics@[i]).def.name@ == name@
                    &&& (forall|j: int| 0 <= j < i ==> self.schematics@[j].def.name@ != name@)
                    &&& tx_matches(t@, self.schematics@[i].def)
                    &&& exists|ticks: nat|
                        ticks <= max_ticks && steps_to(
                            defaults_spec(
                                seed_all(
                                    fresh_tx(tx_id@, self.schematics@[i].def),
                                    self.schematics@[i].def.connections@,
                                    inputs.deep_view(),
                                ),
                                self.schematics@[i].def.defaults@,
                            ),
                            t@,
                            self.schematics@[i].def,
                            ticks,
                        ) && (ticks == max_ticks || !tick_fires(t@))
                },
    {
        let i = match self.find_schematic(name) {
            Some(i) => i,
            None => {
                return Err(NetworkError::SchematicNotFound(name.to_owned()));
            },
        };
        if check_port_streams(inputs).is_err() {
            return Err(NetworkError::TransportError(TransportError::BracketImbalance));
        }
        let model = &self.schematics[i];
        let mut tx = Transaction::new(tx_id, model);
        seed_inputs(&mut tx, model, inputs);
        proof {
            lemma_seed_all_preserve_shape(
                fresh_tx(tx_id@, self.schematics@[i as int].def),
                model.def.connections@,
                inputs.deep_view(),
            );
        }
        seed_defaults(&mut tx, model);
        proof {
            lemma_defaults_preserve_shape(
                seed_all(
                    fresh_tx(tx_id@, self.schematics@[i as int].def),
                    model.def.connections@,
                    inputs.deep_view(),
                ),
                model.def.defaults@,
            );
            assert(tx_matches(tx@, model.def));
        }
        let ticks = run(&mut tx, model, max_ticks);
        proof {
            let def = self.schematics@[i as int].def;
            assert(tx_matches(tx@, def));
            assert(steps_to(
                defaults_spec(
                    seed_all(fresh_tx(tx_id@, def), def.connections@, inputs.deep_view()),
                    def.defaults@,
                ),
                tx@,
                def,
                ticks as nat,
            ) && (ticks as nat == max_ticks || !tick_fires(tx@)));
            assert(self.schematics@[i as int].def.name@ == name@);
        }
        Ok(tx)
    }
}

/// Seeding a payload keeps every queue's name and the transaction id.
proof fn lemma_seed_all_preserve_shape(
    t: TxView,
    conns: Seq<ConnectionDef>,
    inputs: Seq<crate::packet::PortedPacketView>,
)
    ensures
        seed_all(t, conns, inputs).buffers.len() == t.buffers.len(),
        forall|i: int|
            0 <= i < t.buffers.len() ==> (#[trigger] seed_all(t, conns, inputs).buffers[i]).0
                == t.buffers[i].0,
        seed_all(t, conns, inputs).tx_id == t.tx_id,
    decreases inputs.len(),
{
    if inputs.len() > 0 {
        crate::engine::lemma_route_preserves(t, conns, "<input>"@, inputs[0].port, inputs[0].packet);
        let t2 = crate::engine::route_spec(t, conns, "<input>"@, inputs[0].port, inputs[0].packet);
        lemma_seed_all_preserve_shape(t2, conns, inputs.drop_first());
    }
}

/// Applying defaults keeps every queue's name and the transaction id.
proof fn lemma_defaults_preserve_shape(t: crate::engine::TxView, defaults: Seq<(String, String)>)
    ensures
        crate::engine::defaults_spec(t, defaults).buffers.len() == t.buffers.len(),
        forall|i: int|
            0 <= i < t.buffers.len() ==> (#[trigger] crate::engine::defaults_spec(
                t,
                defaults,
            ).buffers[i]).0 == t.buffers[i].0,
        crate::engine::defaults_spec(t, defaults).tx_id == t.tx_id,
    decreases defaults.len(),
{
    if defaults.len() > 0 {
        let t2 = crate::engine::apply_default(t, defaults[0].0@, defaults[0].1@);
        lemma_defaults_preserve_shape(t2, defaults.drop_first());
    }
}

} // verus!
