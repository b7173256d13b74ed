//! Authoritative in-memory Control Plane routing membership.
//!
//! Membership keeps one record per concrete engine instance, keyed by
//! `EngineInstanceId` and enumerated in identity order. Every successful
//! mutation advances the membership version by exactly one; a failed
//! mutation changes nothing. A snapshot owns its records, so later changes
//! to membership never alter it.

use vstd::prelude::*;
use crate::identity::{EngineId, EngineInstanceId};
use crate::keyed_table::{ascending, Keyed, KeyedTable};
use crate::seq_facts::{lemma_filter_take_step, lemma_take_full};
use super::registration::{
    registration_error_text, registration_valid, reported_validation_error, EngineRegistration,
    RegistrationValidationError, RegistrationView,
};

verus! {

/// Errors produced by Control Plane membership operations.
#[derive(Clone, Debug, PartialEq, Eq)]
pub enum MembershipError {
    /// The supplied registration failed its own structural validation.
    InvalidRegistration(RegistrationValidationError),
    /// A registration was submitted for an instance that is already present.
    AlreadyRegistered(EngineInstanceId),
    /// A requested instance does not exist in membership.
    NotFound(EngineInstanceId),
    /// An update attempted to move an instance to another logical engine.
    EngineIdentityMismatch {
        instance_id: EngineInstanceId,
        registered_engine_id: EngineId,
        updated_engine_id: EngineId,
    },
}

/// The human-readable description of a membership error.
pub open spec fn membership_error_text(e: MembershipError) -> Seq<char> {
    match e {
        MembershipError::InvalidRegistration(error) => "invalid engine registration: "@
            + registration_error_text(error),
        MembershipError::AlreadyRegistered(id) => "engine instance "@ + id@
            + " is already registered"@,
        MembershipError::NotFound(id) => "engine instance "@ + id@ + " is not registered"@,
        MembershipError::EngineIdentityMismatch {
            instance_id,
            registered_engine_id,
            updated_engine_id,
        } => "engine instance "@ + instance_id@ + " belongs to engine "@ + registered_engine_id@
            + ", but update specifies engine "@ + updated_engine_id@,
    }
}

impl MembershipError {
    /// Human-readable description of the error.
    pub fn to_string(&self) -> (r: String)
        ensures
            r@ == membership_error_text(*self),
    {
        match self {
            MembershipError::InvalidRegistration(error) => {
                let text = "invalid engine registration: ".to_string();
                let detail = error.to_string();
                text.concat(detail.as_str())
            },
            MembershipError::AlreadyRegistered(instance_id) => {
                let text = "engine instance ".to_string();
                let text = text.concat(instance_id.as_str());
                text.concat(" is already registered")
            },
            MembershipError::NotFound(instance_id) => {
                let text = "engine instance ".to_string();
                let text = text.concat(instance_id.as_str());
                text.concat(" is not registered")
            },
            MembershipError::EngineIdentityMismatch {
                instance_id,
                registered_engine_id,
                updated_engine_id,
            } => {
                let text = "engine instance ".to_string();
                let text = text.concat(instance_id.as_str());
                let text = text.concat(" belongs to engine ");
                let text = text.concat(registered_engine_id.as_str());
                let text = text.concat(", but update specifies engine ");
                text.concat(updated_engine_id.as_str())
            },
        }
    }
}

/// Result alias for membership-local operations.
pub type MembershipResult<T> = Result<T, MembershipError>;

/// One accepted concrete engine instance in routing membership.
#[derive(Debug, PartialEq, Eq)]
pub struct MembershipRecord {
    registration: EngineRegistration,
}

impl View for MembershipRecord {
    type V = RegistrationView;

    closed spec fn view(&self) -> RegistrationView {
        self.registration@
    }
}

impl Clone for MembershipRecord {
    fn clone(&self) -> (r: Self)
        ensures
            r@ == self@,
    {
        MembershipRecord { registration: self.registration.clone() }
    }
}

impl Keyed for MembershipRecord {
    open spec fn key_view(v: RegistrationView) -> Seq<char> {
        v.engine_instance_id
    }

    fn key(&self) -> (r: &EngineInstanceId) {
        self.registration.engine_instance_id()
    }

    fn copy_of(&self) -> (r: Self) {
        self.clone()
    }
}

impl MembershipRecord {
    pub(crate) fn new(registration: EngineRegistration) -> (r: MembershipRecord)
        ensures
            r@ == registration@,
    {
        MembershipRecord { registration }
    }

    /// Returns the logical engine identifier.
    pub fn engine_id(&self) -> (r: &EngineId)
        ensures
            r@ == self@.engine_id,
    {
        self.registration.engine_id()
    }

    /// Returns the concrete engine instance identifier.
    pub fn engine_instance_id(&self) -> (r: &EngineInstanceId)
        ensures
            r@ == self@.engine_instance_id,
    {
        self.registration.engine_instance_id()
    }

    /// Returns the accepted declarative engine registration.
    pub fn registration(&self) -> (r: &EngineRegistration)
        ensures
            r@ == self@,
    {
        &self.registration
    }
}

/// Abstract value of membership and of its snapshots.
pub struct MembershipView {
    pub version: u64,
    /// Records keyed by instance identity.
    pub members: Map<Seq<char>, RegistrationView>,
    /// Records in ascending instance-identity order.
    pub ordered: Seq<RegistrationView>,
}

/// The abstract values of a list of borrowed records.
pub open spec fn record_views(r: Seq<&MembershipRecord>) -> Seq<RegistrationView> {
    r.map_values(|x: &MembershipRecord| x@)
}

/// The abstract values of a slice of records.
pub open spec fn owned_record_views(r: Seq<MembershipRecord>) -> Seq<RegistrationView> {
    r.map_values(|x: MembershipRecord| x@)
}

/// The instance identities of a record sequence, in order.
pub open spec fn instance_ids(s: Seq<RegistrationView>) -> Seq<Seq<char>> {
    s.map_values(|m: RegistrationView| m.engine_instance_id)
}

/// Whether a record belongs to one logical engine.
pub open spec fn of_engine(engine_id: Seq<char>) -> spec_fn(RegistrationView) -> bool {
    |r: RegistrationView| r.engine_id == engine_id
}

/// Whether an ordered record sequence is consistent with a keyed map.
pub open spec fn consistent(
    members: Map<Seq<char>, RegistrationView>,
    ordered: Seq<RegistrationView>,
) -> bool {
    &&& members.dom().finite()
    &&& members.len() == ordered.len()
    &&& forall|i: int|
        0 <= i < ordered.len() ==> members.dom().contains(#[trigger] ordered[i].engine_instance_id)
            && members[ordered[i].engine_instance_id] == ordered[i]
    &&& forall|k: Seq<char>| #[trigger] members.dom().contains(k) ==> members[k].engine_instance_id == k
}

/// Immutable, point-in-time view of routing membership.
#[derive(Debug, PartialEq, Eq)]
pub struct MembershipSnapshot {
    version: u64,
    members: KeyedTable<MembershipRecord>,
}

impl View for MembershipSnapshot {
    type V = MembershipView;

    closed spec fn view(&self) -> MembershipView {
        MembershipView {
            version: self.version,
            members: self.members.as_map(),
            ordered: self.members.records(),
        }
    }
}

impl MembershipSnapshot {
    /// The records are keyed by their instance identities.
    #[verifier::type_invariant]
    pub closed spec fn inv(&self) -> bool {
        self.members.wf()
    }

    /// The keyed and ordered views of a snapshot agree.
    pub proof fn lemma_view(&self)
        requires
            self.inv(),
        ensures
            consistent(self@.members, self@.ordered),
    {
        self.members.lemma_consistent();
    }

    /// Returns the membership version represented by this snapshot.
    pub fn version(&self) -> (r: u64)
        ensures
            r == self@.version,
    {
        self.version
    }

    /// Looks up one concrete engine instance in this snapshot.
    pub fn get(&self, instance_id: &EngineInstanceId) -> (r: Option<&MembershipRecord>)
        ensures
            r is Some <==> self@.members.dom().contains(instance_id@),
            r matches Some(x) ==> x@ == self@.members[instance_id@],
    {
        proof {
            use_type_invariant(self);
        }
        self.members.get(instance_id)
    }

    /// Returns whether an engine instance exists in this snapshot.
    pub fn contains(&self, instance_id: &EngineInstanceId) -> (r: bool)
        ensures
            r == self@.members.dom().contains(instance_id@),
    {
        self.get(instance_id).is_some()
    }

    /// Returns the number of registered engine instances in this snapshot.
    pub fn len(&self) -> (r: usize)
        ensures
            r == self@.members.len(),
    {
        proof {
            use_type_invariant(self);
        }
        self.members.len()
    }

    /// Returns whether this snapshot contains no engine instances.
    pub fn is_empty(&self) -> (r: bool)
        ensures
            r == (self@.members.len() == 0),
    {
        self.len() == 0
    }

    /// All registered instances in ascending `EngineInstanceId` order.
    pub fn candidates(&self) -> (r: &[MembershipRecord])
        ensures
            owned_record_views(r@) == self@.ordered,
            ascending(instance_ids(self@.ordered)),
    {
        proof {
            use_type_invariant(self);
            self.members.lemma_ascending();
            assert(instance_ids(self@.ordered) =~= self.members.keys());
        }
        self.members.entries()
    }

    /// Instances belonging to one logical engine, in ascending
    /// `EngineInstanceId` order.
    pub fn instances_for_engine(&self, engine_id: &EngineId) -> (r: Vec<&MembershipRecord>)
        ensures
            record_views(r@) == self@.ordered.filter(of_engine(engine_id@)),
    {
        let all = self.members.entries();
        let ghost vs = self@.ordered;
        let ghost p = of_engine(engine_id@);
        let mut r: Vec<&MembershipRecord> = Vec::new();
        let mut i: usize = 0;
        while i < all.len()
            invariant
                vs == owned_record_views(all@),
                p == of_engine(engine_id@),
                i <= all@.len(),
                record_views(r@) == vs.take(i as int).filter(p),
            decreases all@.len() - i,
        {
            proof {
                lemma_filter_take_step(vs, p, i as int);
            }
            if all[i].engine_id().same_as(engine_id) {
                r.push(&all[i]);
                assert(record_views(r@) =~= vs.take(i as int).filter(p).push(vs[i as int]));
            }
            i = i + 1;
        }
        proof {
            lemma_take_full(vs);
        }
        r
    }
}

/// Authoritative in-memory routing membership for concrete engine instances.
#[derive(Debug)]
pub struct Membership {
    version: u64,
    members: KeyedTable<MembershipRecord>,
}

impl View for Membership {
    type V = MembershipView;

    closed spec fn view(&self) -> MembershipView {
        MembershipView {
            version: self.version,
            members: self.members.as_map(),
            ordered: self.members.records(),
        }
    }
}

impl Default for Membership {
    fn default() -> (r: Membership)
        ensures
            r@.version == 0,
            r@.members == Map::<Seq<char>, RegistrationView>::empty(),
            r@.ordered == Seq::<RegistrationView>::empty(),
    {
        Membership::new()
    }
}

impl Membership {
    /// The records are keyed by their instance identities.
    #[verifier::type_invariant]
    pub closed spec fn inv(&self) -> bool {
        self.members.wf()
    }

    /// The keyed and ordered views of membership agree.
    pub proof fn lemma_view(&self)
        requires
            self.inv(),
        ensures
            consistent(self@.members, self@.ordered),
    {
        self.members.lemma_consistent();
    }

    /// Creates empty membership at revision zero.
    pub fn new() -> (r: Membership)
        ensures
            r@.version == 0,
            r@.members == Map::<Seq<char>, RegistrationView>::empty(),
            r@.ordered == Seq::<RegistrationView>::empty(),
    {
        Membership { version: 0, members: KeyedTable::new() }
    }

    fn store(&mut self, record: MembershipRecord)
        requires
            old(self)@.version < u64::MAX,
        ensures
            final(self)@.version == old(self)@.version + 1,
            final(self)@.members == old(self)@.members.insert(record@.engine_instance_id, record@),
    {
        proof {
            use_type_invariant(&*self);
        }
        let mut members = KeyedTable::new();
        std::mem::swap(&mut members, &mut self.members);
        members.upsert(record);
        self.members = members;
        self.version = self.version + 1;
    }

    /// Registers one new concrete engine instance; an instance that is
    /// already present is rejected, never replaced.
    pub fn register(&mut self, registration: EngineRegistration) -> (r: MembershipResult<()>)
        requires
            old(self)@.version < u64::MAX,
        ensures
            ({
                let id = registration@.engine_instance_id;
                &&& r is Ok <==> registration_valid(registration@) && !old(self)@.members.dom().contains(id)
                &&& r is Ok ==> final(self)@.version == old(self)@.version + 1
                    && final(self)@.members == old(self)@.members.insert(id, registration@)
                &&& r is Err ==> final(self)@ == old(self)@
                &&& !registration_valid(registration@) ==> (r matches Err(MembershipError::InvalidRegistration(e))
                    && reported_validation_error(registration@, e))
                &&& registration_valid(registration@) && old(self)@.members.dom().contains(id)
                    ==> (r matches Err(MembershipError::AlreadyRegistered(x)) && x@ == id)
            }),
    {
        match registration.validate() {
            Ok(()) => {},
            Err(e) => {
                return Err(MembershipError::InvalidRegistration(e));
            },
        }
        proof {
            use_type_invariant(&*self);
        }
        let instance_id = registration.engine_instance_id().clone();
        if self.members.find(&instance_id).is_some() {
            return Err(MembershipError::AlreadyRegistered(instance_id));
        }
        self.store(MembershipRecord::new(registration));
        Ok(())
    }

    /// Replaces the registration view of an existing instance; the logical
    /// engine of an instance never changes.
    pub fn update(&mut self, registration: EngineRegistration) -> (r: MembershipResult<()>)
        requires
            old(self)@.version < u64::MAX,
        ensures
            ({
                let id = registration@.engine_instance_id;
                let m = old(self)@.members;
                &&& r is Ok <==> registration_valid(registration@) && m.dom().contains(id)
                    && m[id].engine_id == registration@.engine_id
                &&& r is Ok ==> final(self)@.version == old(self)@.version + 1
                    && final(self)@.members == m.insert(id, registration@)
                &&& r is Err ==> final(self)@ == old(self)@
                &&& !registration_valid(registration@) ==> (r matches Err(MembershipError::InvalidRegistration(e))
                    && reported_validation_error(registration@, e))
                &&& registration_valid(registration@) && !m.dom().contains(id)
                    ==> (r matches Err(MembershipError::NotFound(x)) && x@ == id)
                &&& registration_valid(registration@) && m.dom().contains(id) && m[id].engine_id
                    != registration@.engine_id ==> (r matches Err(
                    MembershipError::EngineIdentityMismatch {
                        instance_id,
                        registered_engine_id,
                        updated_engine_id,
                    },
                ) && instance_id@ == id && registered_engine_id@ == m[id].engine_id
                    && updated_engine_id@ == registration@.engine_id)
            }),
    {
        match registration.validate() {
            Ok(()) => {},
            Err(e) => {
                return Err(MembershipError::InvalidRegistration(e));
            },
        }
        proof {
            use_type_invariant(&*self);
        }
        let instance_id = registration.engine_instance_id().clone();
        let existing = match self.members.get(&instance_id) {
            Some(x) => x,
            None => {
                return Err(MembershipError::NotFound(instance_id));
            },
        };
        if !existing.engine_id().same_as(registration.engine_id()) {
            return Err(
                MembershipError::EngineIdentityMismatch {
                    instance_id,
                    registered_engine_id: existing.engine_id().clone(),
                    updated_engine_id: registration.engine_id().clone(),
                },
            );
        }
        self.store(MembershipRecord::new(registration));
        Ok(())
    }

    /// Removes one concrete engine instance and returns its record.
    pub fn unregister(&mut self, instance_id: &EngineInstanceId) -> (r: MembershipResult<
        MembershipRecord,
    >)
        requires
            old(self)@.version < u64::MAX,
        ensures
            r is Ok <==> old(self)@.members.dom().contains(instance_id@),
            r matches Ok(x) ==> x@ == old(self)@.members[instance_id@] && final(self)@.version
                == old(self)@.version + 1 && final(self)@.members == old(self)@.members.remove(
                instance_id@,
            ),
            r matches Err(e) ==> final(self)@ == old(self)@ && (e matches MembershipError::NotFound(x)
                && x@ == instance_id@),
    {
        proof {
            use_type_invariant(&*self);
        }
        if self.members.find(instance_id).is_none() {
            return Err(MembershipError::NotFound(instance_id.clone()));
        }
        let mut members = KeyedTable::new();
        std::mem::swap(&mut members, &mut self.members);
        let removed = members.remove(instance_id);
        self.members = members;
        self.version = self.version + 1;
        match removed {
            Some(x) => Ok(x),
            None => Err(MembershipError::NotFound(instance_id.clone())),
        }
    }

    /// Looks up one concrete engine instance in current live membership.
    pub fn get(&self, instance_id: &EngineInstanceId) -> (r: Option<MembershipRecord>)
        ensures
            r is Some <==> self@.members.dom().contains(instance_id@),
            r matches Some(x) ==> x@ == self@.members[instance_id@],
    {
        proof {
            use_type_invariant(self);
        }
        match self.members.get(instance_id) {
            Some(x) => Some(x.clone()),
            None => None,
        }
    }

    /// Returns whether an instance exists in current live membership.
    pub fn contains(&self, instance_id: &EngineInstanceId) -> (r: bool)
        ensures
            r == self@.members.dom().contains(instance_id@),
    {
        proof {
            use_type_invariant(self);
        }
        self.members.get(instance_id).is_some()
    }

    /// Returns the number of registered engine instances.
    pub fn len(&self) -> (r: usize)
        ensures
            r == self@.members.len(),
    {
        proof {
            use_type_invariant(self);
        }
        self.members.len()
    }

    /// Returns whether live membership contains no engine instances.
    pub fn is_empty(&self) -> (r: bool)
        ensures
            r == (self@.members.len() == 0),
    {
        self.len() == 0
    }

    /// Returns the current live membership revision.
    pub fn version(&self) -> (r: u64)
        ensures
            r == self@.version,
    {
        self.version
    }

    /// Captures one immutable, coherent membership snapshot.
    pub fn snapshot(&self) -> (r: MembershipSnapshot)
        ensures
            r@ == self@,
    {
        proof {
            use_type_invariant(self);
        }
        MembershipSnapshot { version: self.version, members: self.members.copy_of() }
    }
}

} // verus!
