//! Control Plane engine registry.
//!
//! The registry is the discovery and metadata authority for known engine
//! instances, keyed by `EngineInstanceId`. It never silently changes the
//! logical engine associated with a known instance.

use vstd::prelude::*;
use crate::identity::{EngineId, EngineInstanceId};
use crate::keyed_table::{ascending, Keyed, KeyedTable};
use crate::seq_facts::{lemma_filter_take_step, lemma_take_full};
use super::membership::{instance_ids, of_engine};
use super::registration::{
    registration_error_text, registration_valid, reported_validation_error, EngineRegistration,
    RegistrationValidationError, RegistrationView,
};

verus! {

/// Errors produced by registry operations.
#[derive(Clone, Debug, PartialEq, Eq)]
pub enum RegistryError {
    /// The instance is already registered to the same logical engine.
    AlreadyRegistered(EngineInstanceId),
    /// The instance is already registered to a different logical engine.
    EngineIdentityMismatch {
        instance_id: EngineInstanceId,
        registered_engine_id: EngineId,
        requested_engine_id: EngineId,
    },
    /// The supplied registration failed structural validation.
    InvalidRegistration(RegistrationValidationError),
    /// The requested concrete engine instance is not known to the registry.
    NotFound(EngineInstanceId),
}

/// The human-readable description of a registry error.
pub open spec fn registry_error_text(e: RegistryError) -> Seq<char> {
    match e {
        RegistryError::AlreadyRegistered(id) => "engine instance "@ + id@
            + " is already registered"@,
        RegistryError::EngineIdentityMismatch {
            instance_id,
            registered_engine_id,
            requested_engine_id,
        } => "engine instance "@ + instance_id@ + " is registered to engine "@
            + registered_engine_id@ + ", but registration specifies engine "@
            + requested_engine_id@,
        RegistryError::InvalidRegistration(error) => "invalid engine registration: "@
            + registration_error_text(error),
        RegistryError::NotFound(id) => "engine instance "@ + id@ + " is not registered"@,
    }
}

impl RegistryError {
    /// Human-readable description of the error.
    pub fn to_string(&self) -> (r: String)
        ensures
            r@ == registry_error_text(*self),
    {
        match self {
            RegistryError::AlreadyRegistered(instance_id) => {
                let text = "engine instance ".to_string();
                let text = text.concat(instance_id.as_str());
                text.concat(" is already registered")
            },
            RegistryError::EngineIdentityMismatch {
                instance_id,
                registered_engine_id,
                requested_engine_id,
            } => {
                let text = "engine instance ".to_string();
                let text = text.concat(instance_id.as_str());
                let text = text.concat(" is registered to engine ");
                let text = text.concat(registered_engine_id.as_str());
                let text = text.concat(", but registration specifies engine ");
                text.concat(requested_engine_id.as_str())
            },
            RegistryError::InvalidRegistration(error) => {
                let text = "invalid engine registration: ".to_string();
                let detail = error.to_string();
                text.concat(detail.as_str())
            },
            RegistryError::NotFound(instance_id) => {
                let text = "engine instance ".to_string();
                let text = text.concat(instance_id.as_str());
                text.concat(" is not registered")
            },
        }
    }
}

/// Result type used by registry operations.
pub type RegistryResult<T> = Result<T, RegistryError>;

/// One engine registration known to the registry.
#[derive(Debug, PartialEq, Eq)]
pub struct RegistryRecord {
    registration: EngineRegistration,
}

impl View for RegistryRecord {
    type V = RegistrationView;

    closed spec fn view(&self) -> RegistrationView {
        self.registration@
    }
}

impl Clone for RegistryRecord {
    fn clone(&self) -> (r: Self)
        ensures
            r@ == self@,
    {
        RegistryRecord { registration: self.registration.clone() }
    }
}

impl Keyed for RegistryRecord {
    open spec fn key_view(v: RegistrationView) -> Seq<char> {
        v.engine_instance_id
    }

    fn key(&self) -> (r: &EngineInstanceId) {
        self.registration.engine_instance_id()
    }

    fn copy_of(&self) -> (r: Self) {
        self.clone()
    }
}

impl RegistryRecord {
    /// Creates a registry record from an engine registration.
    pub fn new(registration: EngineRegistration) -> (r: RegistryRecord)
        ensures
            r@ == registration@,
    {
        RegistryRecord { registration }
    }

    /// Returns the logical engine identifier.
    pub fn engine_id(&self) -> (r: &EngineId)
        ensures
            r@ == self@.engine_id,
    {
        self.registration.engine_id()
    }

    /// Returns the concrete engine instance identifier.
    pub fn engine_instance_id(&self) -> (r: &EngineInstanceId)
        ensures
            r@ == self@.engine_instance_id,
    {
        self.registration.engine_instance_id()
    }

    /// Returns the complete engine registration.
    pub fn registration(&self) -> (r: &EngineRegistration)
        ensures
            r@ == self@,
    {
        &self.registration
    }
}

/// Abstract value of the registry.
pub struct RegistryView {
    /// Records keyed by instance identity.
    pub records: Map<Seq<char>, RegistrationView>,
    /// Records in ascending instance-identity order.
    pub ordered: Seq<RegistrationView>,
}

/// The abstract values of a list of owned records.
pub open spec fn registry_record_views(r: Seq<RegistryRecord>) -> Seq<RegistrationView> {
    r.map_values(|x: RegistryRecord| x@)
}

/// Authoritative registry of known engine instances.
#[derive(Debug)]
pub struct EngineRegistry {
    state: KeyedTable<RegistryRecord>,
}

impl View for EngineRegistry {
    type V = RegistryView;

    closed spec fn view(&self) -> RegistryView {
        RegistryView { records: self.state.as_map(), ordered: self.state.records() }
    }
}

impl Default for EngineRegistry {
    fn default() -> (r: EngineRegistry)
        ensures
            r@.records == Map::<Seq<char>, RegistrationView>::empty(),
            r@.ordered == Seq::<RegistrationView>::empty(),
    {
        EngineRegistry::new()
    }
}

impl EngineRegistry {
    /// The records are keyed by their instance identities.
    #[verifier::type_invariant]
    pub closed spec fn inv(&self) -> bool {
        self.state.wf()
    }

    /// Creates an empty engine registry.
    pub fn new() -> (r: EngineRegistry)
        ensures
            r@.records == Map::<Seq<char>, RegistrationView>::empty(),
            r@.ordered == Seq::<RegistrationView>::empty(),
    {
        EngineRegistry { state: KeyedTable::new() }
    }

    fn store(&mut self, record: RegistryRecord)
        ensures
            final(self)@.records == old(self)@.records.insert(record@.engine_instance_id, record@),
    {
        proof {
            use_type_invariant(&*self);
        }
        let mut state = KeyedTable::new();
        std::mem::swap(&mut state, &mut self.state);
        state.upsert(record);
        self.state = state;
    }

    /// Registers one concrete engine instance; a known instance is rejected.
    pub fn register(&mut self, registration: EngineRegistration) -> (r: RegistryResult<()>)
        ensures
            ({
                let id = registration@.engine_instance_id;
                let m = old(self)@.records;
                &&& r is Ok <==> registration_valid(registration@) && !m.dom().contains(id)
                &&& r is Ok ==> final(self)@.records == m.insert(id, registration@)
                &&& r is Err ==> final(self)@ == old(self)@
                &&& !registration_valid(registration@) ==> (r matches Err(RegistryError::InvalidRegistration(e))
                    && reported_validation_error(registration@, e))
                &&& registration_valid(registration@) && m.dom().contains(id) && m[id].engine_id
                    == registration@.engine_id ==> (r matches Err(RegistryError::AlreadyRegistered(x)) && x@ == id)
                &&& registration_valid(registration@) && m.dom().contains(id) && m[id].engine_id
                    != registration@.engine_id ==> (r matches Err(
                    RegistryError::EngineIdentityMismatch {
                        instance_id,
                        registered_engine_id,
                        requested_engine_id,
                    },
                ) && instance_id@ == id && registered_engine_id@ == m[id].engine_id
                    && requested_engine_id@ == registration@.engine_id)
            }),
    {
        match registration.validate() {
            Ok(()) => {},
            Err(e) => {
                return Err(RegistryError::InvalidRegistration(e));
            },
        }
        proof {
            use_type_invariant(&*self);
        }
        let instance_id = registration.engine_instance_id().clone();
        if let Some(existing) = self.state.get(&instance_id) {
            if existing.engine_id().same_as(registration.engine_id()) {
                return Err(RegistryError::AlreadyRegistered(instance_id));
            }
            return Err(
                RegistryError::EngineIdentityMismatch {
                    instance_id,
                    registered_engine_id: existing.engine_id().clone(),
                    requested_engine_id: registration.engine_id().clone(),
                },
            );
        }
        self.store(RegistryRecord::new(registration));
        Ok(())
    }

    /// Replaces the registration of a known instance; the logical engine of
    /// an instance never changes.
    pub fn update(&mut self, registration: EngineRegistration) -> (r: RegistryResult<()>)
        ensures
            ({
                let id = registration@.engine_instance_id;
                let m = old(self)@.records;
                &&& r is Ok <==> registration_valid(registration@) && m.dom().contains(id)
                    && m[id].engine_id == registration@.engine_id
                &&& r is Ok ==> final(self)@.records == m.insert(id, registration@)
                &&& r is Err ==> final(self)@ == old(self)@
                &&& !registration_valid(registration@) ==> (r matches Err(RegistryError::InvalidRegistration(e))
                    && reported_validation_error(registration@, e))
                &&& registration_valid(registration@) && !m.dom().contains(id) ==> (r matches Err(
                    RegistryError::NotFound(x),
                ) && x@ == id)
                &&& registration_valid(registration@) && m.dom().contains(id) && m[id].engine_id
                    != registration@.engine_id ==> (r matches Err(
                    RegistryError::EngineIdentityMismatch {
                        instance_id,
                        registered_engine_id,
                        requested_engine_id,
                    },
                ) && instance_id@ == id && registered_engine_id@ == m[id].engine_id
                    && requested_engine_id@ == registration@.engine_id)
            }),
    {
        match registration.validate() {
            Ok(()) => {},
            Err(e) => {
                return Err(RegistryError::InvalidRegistration(e));
            },
        }
        proof {
            use_type_invariant(&*self);
        }
        let instance_id = registration.engine_instance_id().clone();
        let existing = match self.state.get(&instance_id) {
            Some(x) => x,
            None => {
                return Err(RegistryError::NotFound(instance_id));
            },
        };
        if !existing.engine_id().same_as(registration.engine_id()) {
            return Err(
                RegistryError::EngineIdentityMismatch {
                    instance_id,
                    registered_engine_id: existing.engine_id().clone(),
                    requested_engine_id: registration.engine_id().clone(),
                },
            );
        }
        self.store(RegistryRecord::new(registration));
        Ok(())
    }

    /// Removes a concrete engine instance and returns its record.
    pub fn unregister(&mut self, instance_id: &EngineInstanceId) -> (r: RegistryResult<
        RegistryRecord,
    >)
        ensures
            r is Ok <==> old(self)@.records.dom().contains(instance_id@),
            r matches Ok(x) ==> x@ == old(self)@.records[instance_id@] && final(self)@.records
                == old(self)@.records.remove(instance_id@),
            r matches Err(e) ==> final(self)@ == old(self)@ && (e matches RegistryError::NotFound(x)
                && x@ == instance_id@),
    {
        proof {
            use_type_invariant(&*self);
        }
        if self.state.find(instance_id).is_none() {
            return Err(RegistryError::NotFound(instance_id.clone()));
        }
        let mut state = KeyedTable::new();
        std::mem::swap(&mut state, &mut self.state);
        let removed = state.remove(instance_id);
        self.state = state;
        match removed {
            Some(x) => Ok(x),
            None => Err(RegistryError::NotFound(instance_id.clone())),
        }
    }

    /// Looks up one concrete engine instance.
    pub fn get(&self, instance_id: &EngineInstanceId) -> (r: Option<RegistryRecord>)
        ensures
            r is Some <==> self@.records.dom().contains(instance_id@),
            r matches Some(x) ==> x@ == self@.records[instance_id@],
    {
        proof {
            use_type_invariant(self);
        }
        match self.state.get(instance_id) {
            Some(x) => Some(x.clone()),
            None => None,
        }
    }

    /// Returns whether a concrete engine instance is known to the registry.
    pub fn contains(&self, instance_id: &EngineInstanceId) -> (r: bool)
        ensures
            r == self@.records.dom().contains(instance_id@),
    {
        proof {
            use_type_invariant(self);
        }
        self.state.get(instance_id).is_some()
    }

    /// Returns the number of known concrete engine instances.
    pub fn len(&self) -> (r: usize)
        ensures
            r == self@.records.len(),
    {
        proof {
            use_type_invariant(self);
        }
        self.state.len()
    }

    /// Returns whether the registry contains no engine instances.
    pub fn is_empty(&self) -> (r: bool)
        ensures
            r == (self@.records.len() == 0),
    {
        self.len() == 0
    }

    /// All known engine registrations in ascending `EngineInstanceId` order.
    pub fn records(&self) -> (r: Vec<RegistryRecord>)
        ensures
            registry_record_views(r@) == self@.ordered,
            ascending(instance_ids(self@.ordered)),
    {
        proof {
            use_type_invariant(self);
            self.state.lemma_ascending();
            assert(instance_ids(self@.ordered) =~= self.state.keys());
        }
        let all = self.state.entries();
        let mut r: Vec<RegistryRecord> = Vec::new();
        let mut i: usize = 0;
        while i < all.len()
            invariant
                i <= all@.len(),
                registry_record_views(r@) == registry_record_views(all@).take(i as int),
            decreases all@.len() - i,
        {
            let x = all[i].clone();
            assert(x@ == all@[i as int]@);
            let ghost before = r@;
            r.push(x);
            assert(registry_record_views(r@) =~= registry_record_views(before).push(x@));
            assert(registry_record_views(all@).take(i + 1) =~= registry_record_views(all@).take(
                i as int,
            ).push(all@[i as int]@));
            i = i + 1;
        }
        assert(registry_record_views(all@).take(all@.len() as int) =~= registry_record_views(all@));
        r
    }

    /// Registered instances of one logical engine, in ascending
    /// `EngineInstanceId` order.
    pub fn instances_for_engine(&self, engine_id: &EngineId) -> (r: Vec<RegistryRecord>)
        ensures
            registry_record_views(r@) == self@.ordered.filter(of_engine(engine_id@)),
    {
        let all = self.state.entries();
        let ghost vs = self@.ordered;
        let ghost p = of_engine(engine_id@);
        let mut r: Vec<RegistryRecord> = Vec::new();
        let mut i: usize = 0;
        while i < all.len()
            invariant
                vs == registry_record_views(all@),
                p == of_engine(engine_id@),
                i <= all@.len(),
                registry_record_views(r@) == vs.take(i as int).filter(p),
            decreases all@.len() - i,
        {
            proof {
                lemma_filter_take_step(vs, p, i as int);
            }
            if all[i].engine_id().same_as(engine_id) {
                r.push(all[i].clone());
                assert(registry_record_views(r@) =~= vs.take(i as int).filter(p).push(vs[i as int]));
            }
            i = i + 1;
        }
        proof {
            lemma_take_full(vs);
        }
        r
    }
}

} // verus!
