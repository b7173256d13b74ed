//! Global coordination dependency vocabulary and structural validation.
//!
//! This module models only the semantic relationship between global
//! coordination nodes. Graph-wide checks such as cycle detection belong to
//! the plan.

use vstd::prelude::*;
use crate::contracts::{ContractDescriptor, ContractView};
use crate::identity::{CapabilityId, NodeId};
use crate::text::{is_blank, str_is_blank, str_equal};

verus! {

/// Abstract value of a capability requirement.
pub struct CapabilityRequirementView {
    pub capability_id: Seq<char>,
    pub contract: Option<ContractView>,
}

/// A capability required by a global coordination relationship, optionally
/// constrained to one contract.
#[derive(Debug, PartialEq, Eq)]
pub struct CapabilityRequirement {
    capability_id: CapabilityId,
    contract: Option<ContractDescriptor>,
}

impl View for CapabilityRequirement {
    type V = CapabilityRequirementView;

    closed spec fn view(&self) -> CapabilityRequirementView {
        CapabilityRequirementView {
            capability_id: self.capability_id@,
            contract: match self.contract {
                Some(c) => Some(c@),
                None => None,
            },
        }
    }
}

impl Clone for CapabilityRequirement {
    fn clone(&self) -> (r: Self)
        ensures
            r@ == self@,
    {
        let contract = match &self.contract {
            Some(c) => Some(c.clone()),
            None => None,
        };
        CapabilityRequirement { capability_id: self.capability_id.clone(), contract }
    }
}

/// A requirement is coherent when its contract, if any, describes the
/// required capability.
pub open spec fn requirement_coherent(r: CapabilityRequirementView) -> bool {
    match r.contract {
        Some(c) => c.capability_id == r.capability_id,
        None => true,
    }
}

/// Errors produced when a capability requirement is structurally invalid.
#[derive(Clone, Debug, PartialEq, Eq)]
pub enum CapabilityRequirementError {
    /// The supplied contract belongs to a different capability.
    ContractCapabilityMismatch { required_capability: CapabilityId, contract_capability: CapabilityId },
}

/// The human-readable description of a capability requirement error; the
/// identifiers are rendered as their text.
pub open spec fn capability_requirement_error_text(e: CapabilityRequirementError) -> Seq<char> {
    match e {
        CapabilityRequirementError::ContractCapabilityMismatch {
            required_capability,
            contract_capability,
        } => "contract capability does not match required capability: required="@
            + required_capability@ + ", contract="@ + contract_capability@,
    }
}

/// The two capabilities a mismatched requirement names: the required one
/// and the one its contract describes.
pub open spec fn requirement_mismatch(r: CapabilityRequirementView) -> (Seq<char>, Seq<char>) {
    (r.capability_id, r.contract.unwrap().capability_id)
}

/// The capabilities named by a requirement error.
pub open spec fn requirement_error_view(e: CapabilityRequirementError) -> (Seq<char>, Seq<char>) {
    match e {
        CapabilityRequirementError::ContractCapabilityMismatch {
            required_capability,
            contract_capability,
        } => (required_capability@, contract_capability@),
    }
}

impl CapabilityRequirementError {
    /// Human-readable description of the error.
    pub fn to_string(&self) -> (r: String)
        ensures
            r@ == capability_requirement_error_text(*self),
    {
        match self {
            CapabilityRequirementError::ContractCapabilityMismatch {
                required_capability,
                contract_capability,
            } => {
                let text = "contract capability does not match required capability: required=".to_string();
                let text = text.concat(required_capability.as_str());
                let text = text.concat(", contract=");
                text.concat(contract_capability.as_str())
            },
        }
    }
}

impl CapabilityRequirement {
    /// Creates a capability-only requirement.
    pub fn new(capability_id: CapabilityId) -> (r: CapabilityRequirement)
        ensures
            r@ == (CapabilityRequirementView { capability_id: capability_id@, contract: None }),
    {
        CapabilityRequirement { capability_id, contract: None }
    }

    /// Adds a contract constraint describing the same capability.
    pub fn with_contract(self, contract: ContractDescriptor) -> (r: Result<
        CapabilityRequirement,
        CapabilityRequirementError,
    >)
        ensures
            r is Ok <==> contract@.capability_id == self@.capability_id,
            r matches Ok(q) ==> q@ == (CapabilityRequirementView {
                contract: Some(contract@),
                ..self@
            }),
            r matches Err(
                CapabilityRequirementError::ContractCapabilityMismatch {
                    required_capability,
                    contract_capability,
                },
            ) ==> required_capability@ == self@.capability_id && contract_capability@
                == contract@.capability_id,
    {
        if !self.capability_id.same_as(&contract.capability_id) {
            return Err(
                CapabilityRequirementError::ContractCapabilityMismatch {
                    required_capability: self.capability_id.clone(),
                    contract_capability: contract.capability_id.clone(),
                },
            );
        }
        Ok(CapabilityRequirement { capability_id: self.capability_id, contract: Some(contract) })
    }

    /// Returns the required capability.
    pub fn capability_id(&self) -> (r: &CapabilityId)
        ensures
            r@ == self@.capability_id,
    {
        &self.capability_id
    }

    /// Returns the optional contract constraint.
    pub fn contract(&self) -> (r: Option<&ContractDescriptor>)
        ensures
            match r {
                Some(c) => self@.contract == Some(c@),
                None => self@.contract is None,
            },
    {
        self.contract.as_ref()
    }

    /// Validates structural coherence.
    pub fn validate(&self) -> (r: Result<(), CapabilityRequirementError>)
        ensures
            r is Ok <==> requirement_coherent(self@),
            r matches Err(
                CapabilityRequirementError::ContractCapabilityMismatch {
                    required_capability,
                    contract_capability,
                },
            ) ==> required_capability@ == self@.capability_id && Some(contract_capability@)
                == (match self@.contract {
                Some(c) => Some(c.capability_id),
                None => None,
            }),
    {
        if let Some(contract) = &self.contract {
            if !self.capability_id.same_as(&contract.capability_id) {
                return Err(
                    CapabilityRequirementError::ContractCapabilityMismatch {
                        required_capability: self.capability_id.clone(),
                        contract_capability: contract.capability_id.clone(),
                    },
                );
            }
        }
        Ok(())
    }

    /// Whether both requirements are the same value.
    pub fn same_as(&self, other: &CapabilityRequirement) -> (r: bool)
        ensures
            r == (self@ == other@),
    {
        if !self.capability_id.same_as(&other.capability_id) {
            return false;
        }
        match (&self.contract, &other.contract) {
            (Some(a), Some(b)) => a.same_as(b),
            (None, None) => true,
            _ => false,
        }
    }
}

/// Errors produced while constructing a condition reference.
#[derive(Clone, Copy, Debug, PartialEq, Eq, Structural)]
pub enum ConditionReferenceError {
    /// The supplied condition reference is empty or whitespace-only.
    Empty,
}

impl ConditionReferenceError {
    /// Human-readable description of the error.
    pub fn to_string(&self) -> (r: String)
        ensures
            r@ == "condition reference cannot be empty"@,
    {
        "condition reference cannot be empty".to_string()
    }
}

/// An opaque reference identifying the condition under which a conditional
/// dependency applies.
#[derive(Debug, PartialEq, Eq, Hash)]
pub struct ConditionReference {
    value: String,
}

impl View for ConditionReference {
    type V = Seq<char>;

    closed spec fn view(&self) -> Seq<char> {
        self.value@
    }
}

impl Clone for ConditionReference {
    fn clone(&self) -> (r: Self)
        ensures
            r@ == self@,
    {
        ConditionReference { value: self.value.clone() }
    }
}

impl ConditionReference {
    /// Creates a condition reference from a non-blank value.
    pub fn new(value: &str) -> (r: Result<ConditionReference, ConditionReferenceError>)
        ensures
            r is Ok <==> !is_blank(value@),
            r matches Ok(c) ==> c@ == value@,
    {
        if str_is_blank(value) {
            return Err(ConditionReferenceError::Empty);
        }
        Ok(ConditionReference { value: value.to_owned() })
    }

    /// Returns the opaque condition identifier.
    pub fn as_str(&self) -> (r: &str)
        ensures
            r@ == self@,
    {
        self.value.as_str()
    }
}

/// Semantic classification of a global coordination dependency.
#[derive(Clone, Copy, Debug, PartialEq, Eq, Hash, Structural)]
pub enum DependencyKind {
    /// Must be satisfied before the coordination path can proceed.
    Blocking,
    /// Exists, but is not required before the coordination path continues.
    NonBlocking,
    /// Applies only while its referenced condition is active.
    Conditional,
}

/// Abstract value of a dependency target.
pub enum DependencyTargetView {
    Node(Seq<char>),
    Capability(CapabilityRequirementView),
}

/// The target of a global coordination dependency.
#[derive(Debug, PartialEq, Eq)]
pub enum DependencyTarget {
    /// An already represented global coordination node.
    Node(NodeId),
    /// A capability requirement resolved later by the Control Plane.
    Capability(CapabilityRequirement),
}

impl View for DependencyTarget {
    type V = DependencyTargetView;

    open spec fn view(&self) -> DependencyTargetView {
        match self {
            DependencyTarget::Node(n) => DependencyTargetView::Node(n@),
            DependencyTarget::Capability(c) => DependencyTargetView::Capability(c@),
        }
    }
}

impl Clone for DependencyTarget {
    fn clone(&self) -> (r: Self)
        ensures
            r@ == self@,
    {
        match self {
            DependencyTarget::Node(n) => DependencyTarget::Node(n.clone()),
            DependencyTarget::Capability(c) => DependencyTarget::Capability(c.clone()),
        }
    }
}

/// A target is coherent when its capability requirement, if any, is.
pub open spec fn target_coherent(t: DependencyTargetView) -> bool {
    match t {
        DependencyTargetView::Node(_) => true,
        DependencyTargetView::Capability(c) => requirement_coherent(c),
    }
}

impl DependencyTarget {
    /// Validates the target's contained metadata.
    pub fn validate(&self) -> (r: Result<(), DependencyValidationError>)
        ensures
            r is Ok <==> target_coherent(self@),
            r is Err ==> r == Err::<(), _>(DependencyValidationError::InvalidCapabilityRequirement(
                r->Err_0->InvalidCapabilityRequirement_0,
            )),
            r matches Err(DependencyValidationError::InvalidCapabilityRequirement(e)) ==> (
            self@ matches DependencyTargetView::Capability(c) && requirement_error_view(e)
                == requirement_mismatch(c)),
    {
        match self {
            DependencyTarget::Node(_) => Ok(()),
            DependencyTarget::Capability(requirement) => match requirement.validate() {
                Ok(()) => Ok(()),
                Err(e) => Err(DependencyValidationError::InvalidCapabilityRequirement(e)),
            },
        }
    }

    /// Whether both targets are the same value.
    pub fn same_as(&self, other: &DependencyTarget) -> (r: bool)
        ensures
            r == (self@ == other@),
    {
        match (self, other) {
            (DependencyTarget::Node(a), DependencyTarget::Node(b)) => a.same_as(b),
            (DependencyTarget::Capability(a), DependencyTarget::Capability(b)) => a.same_as(b),
            _ => false,
        }
    }
}

/// Abstract value of a dependency.
pub struct DependencyView {
    pub source: Seq<char>,
    pub target: DependencyTargetView,
    pub kind: DependencyKind,
    pub condition: Option<Seq<char>>,
}

/// Structural coherence of one dependency, in the order the checks apply.
pub open spec fn dependency_error(d: DependencyView) -> Option<DependencyErrorKind> {
    if d.target == DependencyTargetView::Node(d.source) {
        Some(DependencyErrorKind::SelfDependency)
    } else if !target_coherent(d.target) {
        Some(DependencyErrorKind::InvalidCapabilityRequirement)
    } else if d.kind != DependencyKind::Conditional && d.condition is Some {
        Some(DependencyErrorKind::ConditionNotAllowed)
    } else if d.kind == DependencyKind::Conditional && d.condition is None {
        Some(DependencyErrorKind::ConditionRequired)
    } else {
        None
    }
}

/// The variants of `DependencyValidationError`, without their payloads.
#[derive(Clone, Copy, Debug, PartialEq, Eq, Structural)]
pub enum DependencyErrorKind {
    SelfDependency,
    ConditionRequired,
    ConditionNotAllowed,
    InvalidCapabilityRequirement,
}

/// The payload-free variant of a dependency validation error.
pub open spec fn error_kind(e: DependencyValidationError) -> DependencyErrorKind {
    match e {
        DependencyValidationError::SelfDependency { .. } => DependencyErrorKind::SelfDependency,
        DependencyValidationError::ConditionRequired => DependencyErrorKind::ConditionRequired,
        DependencyValidationError::ConditionNotAllowed => DependencyErrorKind::ConditionNotAllowed,
        DependencyValidationError::InvalidCapabilityRequirement(_) => {
            DependencyErrorKind::InvalidCapabilityRequirement
        },
    }
}

/// A single global coordination dependency relationship.
#[derive(Debug, PartialEq, Eq)]
pub struct Dependency {
    source: NodeId,
    target: DependencyTarget,
    kind: DependencyKind,
    condition: Option<ConditionReference>,
}

impl View for Dependency {
    type V = DependencyView;

    closed spec fn view(&self) -> DependencyView {
        DependencyView {
            source: self.source@,
            target: self.target@,
            kind: self.kind,
            condition: match self.condition {
                Some(c) => Some(c@),
                None => None,
            },
        }
    }
}

impl Clone for Dependency {
    fn clone(&self) -> (r: Self)
        ensures
            r@ == self@,
    {
        let condition = match &self.condition {
            Some(c) => Some(c.clone()),
            None => None,
        };
        Dependency {
            source: self.source.clone(),
            target: self.target.clone(),
            kind: self.kind,
            condition,
        }
    }
}

/// Structural errors for an individual global dependency.
#[derive(Clone, Debug, PartialEq, Eq)]
pub enum DependencyValidationError {
    /// The dependency points from a node to itself.
    SelfDependency { node_id: NodeId },
    /// A conditional dependency was created without a condition.
    ConditionRequired,
    /// A blocking or non-blocking dependency was given a condition.
    ConditionNotAllowed,
    /// The dependency contains an invalid capability requirement.
    InvalidCapabilityRequirement(CapabilityRequirementError),
}

/// The human-readable description of a dependency validation error; the
/// node identifier is rendered as its text.
pub open spec fn dependency_error_text(e: DependencyValidationError) -> Seq<char> {
    match e {
        DependencyValidationError::SelfDependency { node_id } => "dependency cannot target its own source node: "@
            + node_id@,
        DependencyValidationError::ConditionRequired => "conditional dependency requires a condition reference"@,
        DependencyValidationError::ConditionNotAllowed => "blocking and non-blocking dependencies cannot have a condition"@,
        DependencyValidationError::InvalidCapabilityRequirement(error) => "invalid capability requirement: "@
            + capability_requirement_error_text(error),
    }
}

impl DependencyValidationError {
    /// Human-readable description of the error.
    pub fn to_string(&self) -> (r: String)
        ensures
            r@ == dependency_error_text(*self),
    {
        match self {
            DependencyValidationError::SelfDependency { node_id } => {
                let text = "dependency cannot target its own source node: ".to_string();
                text.concat(node_id.as_str())
            },
            DependencyValidationError::ConditionRequired => "conditional dependency requires a condition reference".to_string(),
            DependencyValidationError::ConditionNotAllowed => "blocking and non-blocking dependencies cannot have a condition".to_string(),
            DependencyValidationError::InvalidCapabilityRequirement(error) => {
                let text = "invalid capability requirement: ".to_string();
                let detail = error.to_string();
                text.concat(detail.as_str())
            },
        }
    }
}

impl Dependency {
    /// Creates a blocking dependency.
    pub fn blocking(source: NodeId, target: DependencyTarget) -> (r: Result<
        Dependency,
        DependencyValidationError,
    >)
        ensures
            ({
                let d = DependencyView {
                    source: source@,
                    target: target@,
                    kind: DependencyKind::Blocking,
                    condition: None,
                };
                &&& r is Ok <==> dependency_error(d) is None
                &&& r matches Ok(x) ==> x@ == d
                &&& r matches Err(e) ==> Some(error_kind(e)) == dependency_error(d)
            }),
    {
        Self::create(source, target, DependencyKind::Blocking, None)
    }

    /// Creates a non-blocking dependency.
    pub fn non_blocking(source: NodeId, target: DependencyTarget) -> (r: Result<
        Dependency,
        DependencyValidationError,
    >)
        ensures
            ({
                let d = DependencyView {
                    source: source@,
                    target: target@,
                    kind: DependencyKind::NonBlocking,
                    condition: None,
                };
                &&& r is Ok <==> dependency_error(d) is None
                &&& r matches Ok(x) ==> x@ == d
                &&& r matches Err(e) ==> Some(error_kind(e)) == dependency_error(d)
            }),
    {
        Self::create(source, target, DependencyKind::NonBlocking, None)
    }

    /// Creates a conditional dependency.
    pub fn conditional(
        source: NodeId,
        target: DependencyTarget,
        condition: ConditionReference,
    ) -> (r: Result<Dependency, DependencyValidationError>)
        ensures
            ({
                let d = DependencyView {
                    source: source@,
                    target: target@,
                    kind: DependencyKind::Conditional,
                    condition: Some(condition@),
                };
                &&& r is Ok <==> dependency_error(d) is None
                &&& r matches Ok(x) ==> x@ == d
                &&& r matches Err(e) ==> Some(error_kind(e)) == dependency_error(d)
            }),
    {
        Self::create(source, target, DependencyKind::Conditional, Some(condition))
    }

    fn create(
        source: NodeId,
        target: DependencyTarget,
        kind: DependencyKind,
        condition: Option<ConditionReference>,
    ) -> (r: Result<Dependency, DependencyValidationError>)
        ensures
            ({
                let d = DependencyView {
                    source: source@,
                    target: target@,
                    kind,
                    condition: match condition {
                        Some(c) => Some(c@),
                        None => None,
                    },
                };
                &&& r is Ok <==> dependency_error(d) is None
                &&& r matches Ok(x) ==> x@ == d
                &&& r matches Err(e) ==> Some(error_kind(e)) == dependency_error(d)
            }),
    {
        let dependency = Dependency { source, target, kind, condition };
        match dependency.validate() {
            Ok(()) => Ok(dependency),
            Err(e) => Err(e),
        }
    }

    /// Returns the source coordination node.
    pub fn source(&self) -> (r: &NodeId)
        ensures
            r@ == self@.source,
    {
        &self.source
    }

    /// Returns the dependency target.
    pub fn target(&self) -> (r: &DependencyTarget)
        ensures
            r@ == self@.target,
    {
        &self.target
    }

    /// Returns the dependency kind.
    pub fn kind(&self) -> (r: DependencyKind)
        ensures
            r == self@.kind,
    {
        self.kind
    }

    /// Returns the optional condition reference.
    pub fn condition(&self) -> (r: Option<&ConditionReference>)
        ensures
            match r {
                Some(c) => self@.condition == Some(c@),
                None => self@.condition is None,
            },
    {
        self.condition.as_ref()
    }

    /// Validates structural coherence of this individual dependency.
    pub fn validate(&self) -> (r: Result<(), DependencyValidationError>)
        ensures
            r is Ok <==> dependency_error(self@) is None,
            r matches Err(e) ==> Some(error_kind(e)) == dependency_error(self@),
            r matches Err(DependencyValidationError::SelfDependency { node_id }) ==> node_id@
                == self@.source,
            r matches Err(DependencyValidationError::InvalidCapabilityRequirement(e)) ==> (
            self@.target matches DependencyTargetView::Capability(c) && requirement_error_view(e)
                == requirement_mismatch(c)),
    {
        if let DependencyTarget::Node(target) = &self.target {
            if self.source.same_as(target) {
                return Err(DependencyValidationError::SelfDependency { node_id: self.source.clone() });
            }
        }
        match self.target.validate() {
            Ok(()) => {},
            Err(e) => {
                return Err(e);
            },
        }
        match (self.kind, self.condition.is_some()) {
            (DependencyKind::Blocking, true) | (DependencyKind::NonBlocking, true) => Err(
                DependencyValidationError::ConditionNotAllowed,
            ),
            (DependencyKind::Conditional, false) => Err(DependencyValidationError::ConditionRequired),
            _ => Ok(()),
        }
    }

    /// Whether both dependencies are the same value.
    pub fn same_as(&self, other: &Dependency) -> (r: bool)
        ensures
            r == (self@ == other@),
    {
        if !self.source.same_as(&other.source) || !self.target.same_as(&other.target)
            || self.kind != other.kind {
            return false;
        }
        match (&self.condition, &other.condition) {
            (Some(a), Some(b)) => str_equal(a.as_str(), b.as_str()),
            (None, None) => true,
            _ => false,
        }
    }
}

} // verus!
