//! Context exchange and propagation semantics for the Control Plane.
//!
//! A consumer states what context it needs; a provider supplies opaque
//! entries, artifact references and provenance; the consumer answers whether
//! the supplied context suffices. Names, keys, values and missing
//! requirements are never blank, every carried artifact reference is valid,
//! and a partial answer always names what is missing. The Control Plane
//! carries all of it without interpreting it.

use vstd::prelude::*;
use crate::artifact::{artifact_reference_valid, ArtifactReference, ArtifactReferenceView};
use crate::operation::{OperationContext, OperationContextView};
use crate::provenance::ProvenanceContext;
use crate::text::{is_blank, str_is_blank};
use crate::text_map::TextMap;

verus! {

/// How important a context requirement is to the consuming engine.
#[derive(Clone, Copy, Debug, PartialEq, Eq, Structural, Hash, PartialOrd, Ord)]
pub enum ContextRequirementLevel {
    /// Context required for the consumer to proceed safely.
    Required,
    /// Context preferred by the consumer when available.
    Preferred,
    /// Context that may be supplied when available but is not required.
    Optional,
}

/// Abstract value of a context error.
pub enum ContextErrorView {
    EmptyValue(Seq<char>),
    InvalidArtifactReference,
    EmptyMissingRequirements,
}

/// Error returned when a context exchange value violates its structural
/// invariants.
#[derive(Clone, Debug, PartialEq, Eq)]
pub enum ContextError {
    /// A context name, key, or value was empty or whitespace-only; the
    /// payload names the field.
    EmptyValue(&'static str),
    /// An artifact reference supplied to a context package is invalid.
    InvalidArtifactReference,
    /// A partial acceptance was created without identifying missing context.
    EmptyMissingRequirements,
}

impl View for ContextError {
    type V = ContextErrorView;

    open spec fn view(&self) -> ContextErrorView {
        match self {
            ContextError::EmptyValue(field) => ContextErrorView::EmptyValue(field@),
            ContextError::InvalidArtifactReference => ContextErrorView::InvalidArtifactReference,
            ContextError::EmptyMissingRequirements => ContextErrorView::EmptyMissingRequirements,
        }
    }
}

/// The human-readable description of a context error.
pub open spec fn context_error_text(e: ContextErrorView) -> Seq<char> {
    match e {
        ContextErrorView::EmptyValue(field) => "context "@ + field
            + " must not be empty or whitespace-only"@,
        ContextErrorView::InvalidArtifactReference => "context package contains an invalid artifact reference"@,
        ContextErrorView::EmptyMissingRequirements => "partial context acceptance must identify missing requirements"@,
    }
}

impl ContextError {
    /// Human-readable description of the error.
    pub fn to_string(&self) -> (r: String)
        ensures
            r@ == context_error_text(self@),
    {
        match self {
            ContextError::EmptyValue(field) => {
                let text = "context ".to_string();
                let text = text.concat(field);
                text.concat(" must not be empty or whitespace-only")
            },
            ContextError::InvalidArtifactReference => "context package contains an invalid artifact reference".to_string(),
            ContextError::EmptyMissingRequirements => "partial context acceptance must identify missing requirements".to_string(),
        }
    }
}

/// Rejects a blank value, naming the field.
fn validate_non_empty(value: &str, field: &'static str) -> (r: Result<(), ContextError>)
    ensures
        r is Ok <==> !is_blank(value@),
        r matches Err(e) ==> e@ == ContextErrorView::EmptyValue(field@),
{
    if str_is_blank(value) {
        Err(ContextError::EmptyValue(field))
    } else {
        Ok(())
    }
}

/// Abstract value of a context requirement.
pub struct ContextRequirementView {
    pub name: Seq<char>,
    pub level: ContextRequirementLevel,
    pub constraints: Map<Seq<char>, Seq<char>>,
}

/// A single generic requirement for context needed by a consuming engine.
#[derive(Debug, PartialEq, Eq)]
pub struct ContextRequirement {
    name: String,
    level: ContextRequirementLevel,
    constraints: TextMap,
}

impl View for ContextRequirement {
    type V = ContextRequirementView;

    closed spec fn view(&self) -> ContextRequirementView {
        ContextRequirementView {
            name: self.name@,
            level: self.level,
            constraints: self.constraints@,
        }
    }
}

impl Clone for ContextRequirement {
    fn clone(&self) -> (r: Self)
        ensures
            r@ == self@,
    {
        ContextRequirement {
            name: self.name.clone(),
            level: self.level,
            constraints: self.constraints.clone(),
        }
    }
}

impl ContextRequirement {
    /// Creates a context requirement with no constraints; the name must not
    /// be blank.
    pub fn new(name: &str, level: ContextRequirementLevel) -> (r: Result<
        ContextRequirement,
        ContextError,
    >)
        ensures
            r is Ok <==> !is_blank(name@),
            r matches Ok(q) ==> q@ == (ContextRequirementView {
                name: name@,
                level,
                constraints: Map::empty(),
            }),
            r matches Err(e) ==> e@ == ContextErrorView::EmptyValue("requirement name"@),
    {
        match validate_non_empty(name, "requirement name") {
            Err(e) => Err(e),
            Ok(()) => Ok(
                ContextRequirement {
                    name: name.to_owned(),
                    level,
                    constraints: TextMap::new(),
                },
            ),
        }
    }

    /// Adds or replaces one opaque constraint; neither its key nor its value
    /// may be blank, and the key is checked first.
    pub fn with_constraint(self, key: &str, value: &str) -> (r: Result<
        ContextRequirement,
        ContextError,
    >)
        ensures
            r is Ok <==> !is_blank(key@) && !is_blank(value@),
            r matches Ok(q) ==> q@ == (ContextRequirementView {
                constraints: self@.constraints.insert(key@, value@),
                ..self@
            }),
            r matches Err(e) ==> e@ == ContextErrorView::EmptyValue(
                if is_blank(key@) {
                    "constraint key"@
                } else {
                    "constraint value"@
                },
            ),
    {
        match validate_non_empty(key, "constraint key") {
            Err(e) => {
                return Err(e);
            },
            Ok(()) => {},
        }
        match validate_non_empty(value, "constraint value") {
            Err(e) => {
                return Err(e);
            },
            Ok(()) => {},
        }
        let mut requirement = self;
        requirement.constraints.insert(key.to_owned(), value.to_owned());
        Ok(requirement)
    }

    /// Returns the requirement name.
    pub fn name(&self) -> (r: &str)
        ensures
            r@ == self@.name,
    {
        self.name.as_str()
    }

    /// Returns the requirement level.
    pub fn level(&self) -> (r: ContextRequirementLevel)
        ensures
            r == self@.level,
    {
        self.level
    }

    /// Returns all opaque requirement constraints.
    pub fn constraints(&self) -> (r: &TextMap)
        ensures
            r@ == self@.constraints,
    {
        &self.constraints
    }

    /// Returns one constraint when present.
    pub fn constraint(&self, key: &str) -> (r: Option<&str>)
        ensures
            r is Some <==> self@.constraints.dom().contains(key@),
            r matches Some(v) ==> v@ == self@.constraints[key@],
    {
        self.constraints.get(key)
    }
}

/// Abstract value of a context request.
pub struct ContextRequestView {
    pub operation: OperationContextView,
    pub requirement: ContextRequirementView,
}

/// A request to obtain context satisfying one context requirement; the
/// established operation context is carried through unchanged.
#[derive(Debug, PartialEq, Eq)]
pub struct ContextRequest {
    operation: OperationContext,
    requirement: ContextRequirement,
}

impl View for ContextRequest {
    type V = ContextRequestView;

    closed spec fn view(&self) -> ContextRequestView {
        ContextRequestView { operation: self.operation@, requirement: self.requirement@ }
    }
}

impl Clone for ContextRequest {
    fn clone(&self) -> (r: Self)
        ensures
            r@ == self@,
    {
        ContextRequest { operation: self.operation.clone(), requirement: self.requirement.clone() }
    }
}

impl ContextRequest {
    /// Creates a context request.
    pub fn new(operation: OperationContext, requirement: ContextRequirement) -> (r: ContextRequest)
        ensures
            r@ == (ContextRequestView { operation: operation@, requirement: requirement@ }),
    {
        ContextRequest { operation, requirement }
    }

    /// Returns the established operation context carried by the request.
    pub fn operation(&self) -> (r: &OperationContext)
        ensures
            r@ == self@.operation,
    {
        &self.operation
    }

    /// Returns the requested context requirement.
    pub fn requirement(&self) -> (r: &ContextRequirement)
        ensures
            r@ == self@.requirement,
    {
        &self.requirement
    }
}

/// Abstract value of a context package.
pub struct ContextPackageView {
    pub entries: Map<Seq<char>, Seq<char>>,
    pub artifacts: Seq<ArtifactReferenceView>,
    pub provenance: Map<Seq<char>, Seq<char>>,
}

/// The abstract values of a list of artifact references.
pub open spec fn artifact_views(artifacts: Seq<ArtifactReference>) -> Seq<ArtifactReferenceView> {
    artifacts.map_values(|a: ArtifactReference| a@)
}

/// Generic context supplied by a context-owning provider.
#[derive(Debug, PartialEq, Eq)]
pub struct ContextPackage {
    entries: TextMap,
    artifacts: Vec<ArtifactReference>,
    provenance: ProvenanceContext,
}

impl View for ContextPackage {
    type V = ContextPackageView;

    closed spec fn view(&self) -> ContextPackageView {
        ContextPackageView {
            entries: self.entries@,
            artifacts: artifact_views(self.artifacts@),
            provenance: self.provenance@,
        }
    }
}

fn copy_artifacts(artifacts: &Vec<ArtifactReference>) -> (r: Vec<ArtifactReference>)
    ensures
        artifact_views(r@) == artifact_views(artifacts@),
{
    let mut out: Vec<ArtifactReference> = Vec::new();
    let mut k: usize = 0;
    while k < artifacts.len()
        invariant
            k <= artifacts@.len(),
            artifact_views(out@) == artifact_views(artifacts@).take(k as int),
        decreases artifacts@.len() - k,
    {
        let a = artifacts[k].clone();
        let ghost before = artifact_views(out@);
        out.push(a);
        proof {
            assert(artifact_views(out@) =~= before.push(a@));
            assert(artifact_views(artifacts@).take(k + 1) =~= artifact_views(artifacts@).take(
                k as int,
            ).push(a@));
        }
        k = k + 1;
    }
    proof {
        assert(artifact_views(artifacts@).take(k as int) =~= artifact_views(artifacts@));
    }
    out
}

impl Clone for ContextPackage {
    fn clone(&self) -> (r: Self)
        ensures
            r@ == self@,
    {
        ContextPackage {
            entries: self.entries.clone(),
            artifacts: copy_artifacts(&self.artifacts),
            provenance: self.provenance.clone(),
        }
    }
}

impl Default for ContextPackage {
    fn default() -> (r: Self)
        ensures
            r@ == (ContextPackageView {
                entries: Map::empty(),
                artifacts: Seq::empty(),
                provenance: Map::empty(),
            }),
    {
        ContextPackage::new()
    }
}

impl ContextPackage {
    /// Creates an empty context package with empty provenance.
    pub fn new() -> (r: ContextPackage)
        ensures
            r@ == (ContextPackageView {
                entries: Map::empty(),
                artifacts: Seq::empty(),
                provenance: Map::empty(),
            }),
    {
        let r = ContextPackage {
            entries: TextMap::new(),
            artifacts: Vec::new(),
            provenance: ProvenanceContext::new(),
        };
        proof {
            assert(artifact_views(r.artifacts@) =~= Seq::<ArtifactReferenceView>::empty());
        }
        r
    }

    /// Returns the package with one entry added or replaced.
    pub fn with_entry(self, key: &str, value: &str) -> (r: Result<ContextPackage, ContextError>)
        ensures
            r is Ok <==> !is_blank(key@) && !is_blank(value@),
            r matches Ok(p) ==> p@ == (ContextPackageView {
                entries: self@.entries.insert(key@, value@),
                ..self@
            }),
            r matches Err(e) ==> e@ == ContextErrorView::EmptyValue(
                if is_blank(key@) {
                    "context entry key"@
                } else {
                    "context entry value"@
                },
            ),
    {
        let mut package = self;
        match package.insert(key, value) {
            Ok(()) => Ok(package),
            Err(e) => Err(e),
        }
    }

    /// Adds or replaces an entry; a blank key or value changes nothing.
    pub fn insert(&mut self, key: &str, value: &str) -> (r: Result<(), ContextError>)
        ensures
            r is Ok <==> !is_blank(key@) && !is_blank(value@),
            r is Ok ==> final(self)@ == (ContextPackageView {
                entries: old(self)@.entries.insert(key@, value@),
                ..old(self)@
            }),
            r matches Err(e) ==> final(self)@ == old(self)@ && e@ == ContextErrorView::EmptyValue(
                if is_blank(key@) {
                    "context entry key"@
                } else {
                    "context entry value"@
                },
            ),
    {
        match validate_non_empty(key, "context entry key") {
            Err(e) => {
                return Err(e);
            },
            Ok(()) => {},
        }
        match validate_non_empty(value, "context entry value") {
            Err(e) => {
                return Err(e);
            },
            Ok(()) => {},
        }
        self.entries.insert(key.to_owned(), value.to_owned());
        Ok(())
    }

    /// Returns the package with one more artifact reference.
    pub fn with_artifact(self, artifact: ArtifactReference) -> (r: Result<
        ContextPackage,
        ContextError,
    >)
        ensures
            r is Ok <==> artifact_reference_valid(artifact@),
            r matches Ok(p) ==> p@ == (ContextPackageView {
                artifacts: self@.artifacts.push(artifact@),
                ..self@
            }),
            r matches Err(e) ==> e@ == ContextErrorView::InvalidArtifactReference,
    {
        let mut package = self;
        match package.add_artifact(artifact) {
            Ok(()) => Ok(package),
            Err(e) => Err(e),
        }
    }

    /// Adds an artifact reference without resolving it; an invalid
    /// reference changes nothing.
    pub fn add_artifact(&mut self, artifact: ArtifactReference) -> (r: Result<(), ContextError>)
        ensures
            r is Ok <==> artifact_reference_valid(artifact@),
            r is Ok ==> final(self)@ == (ContextPackageView {
                artifacts: old(self)@.artifacts.push(artifact@),
                ..old(self)@
            }),
            r matches Err(e) ==> final(self)@ == old(self)@ && e@
                == ContextErrorView::InvalidArtifactReference,
    {
        if !artifact.is_valid() {
            return Err(ContextError::InvalidArtifactReference);
        }
        let ghost before = artifact_views(self.artifacts@);
        let ghost a = artifact@;
        self.artifacts.push(artifact);
        proof {
            assert(artifact_views(self.artifacts@) =~= before.push(a));
        }
        Ok(())
    }

    /// Returns the package with the supplied provenance.
    pub fn with_provenance(self, provenance: ProvenanceContext) -> (r: ContextPackage)
        ensures
            r@ == (ContextPackageView { provenance: provenance@, ..self@ }),
    {
        ContextPackage { provenance, ..self }
    }

    /// Returns all opaque context entries.
    pub fn entries(&self) -> (r: &TextMap)
        ensures
            r@ == self@.entries,
    {
        &self.entries
    }

    /// Returns one context entry when present.
    pub fn entry(&self, key: &str) -> (r: Option<&str>)
        ensures
            r is Some <==> self@.entries.dom().contains(key@),
            r matches Some(v) ==> v@ == self@.entries[key@],
    {
        self.entries.get(key)
    }

    /// Returns artifact references carried by the package.
    pub fn artifacts(&self) -> (r: &[ArtifactReference])
        ensures
            artifact_views(r@) == self@.artifacts,
    {
        self.artifacts.as_slice()
    }

    /// Returns the provenance carried by the package.
    pub fn provenance(&self) -> (r: &ProvenanceContext)
        ensures
            r@ == self@.provenance,
    {
        &self.provenance
    }

    /// Returns whether the package holds no entries and no artifact
    /// references.
    pub fn is_empty(&self) -> (r: bool)
        ensures
            r == (self@.entries.len() == 0 && self@.artifacts.len() == 0),
    {
        self.entries.is_empty() && self.artifacts.len() == 0
    }
}

/// The consumer's structural acceptance state for a supplied context package.
#[derive(Clone, Copy, Debug, PartialEq, Eq, Structural, Hash, PartialOrd, Ord)]
pub enum ContextAcceptanceStatus {
    /// The consumer has accepted the supplied context as sufficient.
    Accepted,
    /// The consumer can identify missing context and may request more.
    Partial,
    /// The consumer has rejected the supplied context.
    Rejected,
}

/// Abstract value of a context acceptance.
pub struct ContextAcceptanceView {
    pub status: ContextAcceptanceStatus,
    pub missing_requirements: Seq<Seq<char>>,
}

/// The abstract values of a list of texts.
pub open spec fn text_views(texts: Seq<String>) -> Seq<Seq<char>> {
    texts.map_values(|t: String| t@)
}

/// The abstract values of a list of borrowed texts.
pub open spec fn str_views(texts: Seq<&str>) -> Seq<Seq<char>> {
    texts.map_values(|t: &str| t@)
}

/// Consumer-side response describing whether a context package is
/// sufficient.
#[derive(Debug, PartialEq, Eq)]
pub struct ContextAcceptance {
    status: ContextAcceptanceStatus,
    missing_requirements: Vec<String>,
}

impl View for ContextAcceptance {
    type V = ContextAcceptanceView;

    closed spec fn view(&self) -> ContextAcceptanceView {
        ContextAcceptanceView {
            status: self.status,
            missing_requirements: text_views(self.missing_requirements@),
        }
    }
}

impl Clone for ContextAcceptance {
    fn clone(&self) -> (r: Self)
        ensures
            r@ == self@,
    {
        let mut missing: Vec<String> = Vec::new();
        let mut k: usize = 0;
        while k < self.missing_requirements.len()
            invariant
                k <= self.missing_requirements@.len(),
                text_views(missing@) == text_views(self.missing_requirements@).take(k as int),
            decreases self.missing_requirements@.len() - k,
        {
            let t = self.missing_requirements[k].clone();
            let ghost before = text_views(missing@);
            missing.push(t);
            proof {
                assert(text_views(missing@) =~= before.push(t@));
                assert(text_views(self.missing_requirements@).take(k + 1) =~= text_views(
                    self.missing_requirements@,
                ).take(k as int).push(t@));
            }
            k = k + 1;
        }
        proof {
            assert(text_views(self.missing_requirements@).take(k as int) =~= text_views(
                self.missing_requirements@,
            ));
        }
        ContextAcceptance { status: self.status, missing_requirements: missing }
    }
}

/// Copies the requirement names, rejecting the first blank one.
fn collect_non_empty(values: &[&str], field: &'static str) -> (r: Result<Vec<String>, ContextError>)
    ensures
        r is Ok <==> forall|i: int| 0 <= i < values@.len() ==> !is_blank(#[trigger] values@[i]@),
        r matches Ok(v) ==> text_views(v@) == str_views(values@),
        r matches Err(e) ==> e@ == ContextErrorView::EmptyValue(field@),
{
    let mut out: Vec<String> = Vec::new();
    let mut k: usize = 0;
    while k < values.len()
        invariant
            k <= values@.len(),
            forall|i: int| 0 <= i < k ==> !is_blank(#[trigger] values@[i]@),
            text_views(out@) == str_views(values@).take(k as int),
        decreases values@.len() - k,
    {
        match validate_non_empty(values[k], field) {
            Err(e) => {
                return Err(e);
            },
            Ok(()) => {},
        }
        let t = values[k].to_owned();
        let ghost before = text_views(out@);
        out.push(t);
        proof {
            assert(text_views(out@) =~= before.push(t@));
            assert(str_views(values@).take(k + 1) =~= str_views(values@).take(k as int).push(
                values@[k as int]@,
            ));
        }
        k = k + 1;
    }
    proof {
        assert(str_views(values@).take(k as int) =~= str_views(values@));
    }
    Ok(out)
}

impl ContextAcceptance {
    /// Creates an accepted context result.
    pub fn accepted() -> (r: ContextAcceptance)
        ensures
            r@ == (ContextAcceptanceView {
                status: ContextAcceptanceStatus::Accepted,
                missing_requirements: Seq::empty(),
            }),
    {
        let r = ContextAcceptance {
            status: ContextAcceptanceStatus::Accepted,
            missing_requirements: Vec::new(),
        };
        proof {
            assert(text_views(r.missing_requirements@) =~= Seq::<Seq<char>>::empty());
        }
        r
    }

    /// Creates a partial result naming the missing requirements; there must
    /// be at least one, and none may be blank.
    pub fn partial(missing_requirements: &[&str]) -> (r: Result<ContextAcceptance, ContextError>)
        ensures
            r is Ok <==> missing_requirements@.len() > 0 && forall|i: int|
                0 <= i < missing_requirements@.len() ==> !is_blank(
                    #[trigger] missing_requirements@[i]@,
                ),
            r matches Ok(a) ==> a@ == (ContextAcceptanceView {
                status: ContextAcceptanceStatus::Partial,
                missing_requirements: str_views(missing_requirements@),
            }),
            r matches Err(e) ==> e@ == (if exists|i: int|
                0 <= i < missing_requirements@.len() && is_blank(
                    #[trigger] missing_requirements@[i]@,
                ) {
                ContextErrorView::EmptyValue("missing requirement"@)
            } else {
                ContextErrorView::EmptyMissingRequirements
            }),
    {
        let missing = match collect_non_empty(missing_requirements, "missing requirement") {
            Ok(m) => m,
            Err(e) => {
                return Err(e);
            },
        };
        proof {
            assert(text_views(missing@).len() == str_views(missing_requirements@).len());
        }
        if missing.len() == 0 {
            return Err(ContextError::EmptyMissingRequirements);
        }
        Ok(ContextAcceptance { status: ContextAcceptanceStatus::Partial, missing_requirements: missing })
    }

    /// Creates a rejected result naming the unsatisfied requirements, which
    /// may be none; none may be blank.
    pub fn rejected(missing_requirements: &[&str]) -> (r: Result<ContextAcceptance, ContextError>)
        ensures
            r is Ok <==> forall|i: int|
                0 <= i < missing_requirements@.len() ==> !is_blank(
                    #[trigger] missing_requirements@[i]@,
                ),
            r matches Ok(a) ==> a@ == (ContextAcceptanceView {
                status: ContextAcceptanceStatus::Rejected,
                missing_requirements: str_views(missing_requirements@),
            }),
            r matches Err(e) ==> e@ == ContextErrorView::EmptyValue("missing requirement"@),
    {
        let missing = match collect_non_empty(missing_requirements, "missing requirement") {
            Ok(m) => m,
            Err(e) => {
                return Err(e);
            },
        };
        Ok(ContextAcceptance { status: ContextAcceptanceStatus::Rejected, missing_requirements: missing })
    }

    /// Returns the acceptance status.
    pub fn status(&self) -> (r: ContextAcceptanceStatus)
        ensures
            r == self@.status,
    {
        self.status
    }

    /// Returns requirements identified by the consumer as missing.
    pub fn missing_requirements(&self) -> (r: &[String])
        ensures
            text_views(r@) == self@.missing_requirements,
    {
        self.missing_requirements.as_slice()
    }

    /// Returns whether the consumer accepted the supplied package.
    pub fn is_accepted(&self) -> (r: bool)
        ensures
            r == (self@.status == ContextAcceptanceStatus::Accepted),
    {
        match self.status {
            ContextAcceptanceStatus::Accepted => true,
            _ => false,
        }
    }
}

} // verus!
