//! Immutable global coordination plans for the Control Plane.
//!
//! A plan is one version of ecosystem-level coordination state: globally
//! relevant coordination nodes and the dependency relationships between
//! them. A plan is structurally valid when its node identities are
//! distinct, every node and dependency is coherent, every dependency starts
//! at a node of the plan, every concrete node target is a node of the plan,
//! and the node-to-node dependencies form no cycle.

use vstd::prelude::*;
use vstd::set_lib::{lemma_int_range, lemma_len_subset, lemma_map_size, set_int_range};
use vstd::seq_lib::{to_multiset_contains, to_multiset_len};
use vstd::relations::total_ordering;
use crate::identity::{CapabilityId, NodeId, OperationId, PlanId};
use crate::text::{decimal, decimal_text, lemma_seq_lt_asymmetric, lemma_seq_lt_irreflexive,
    lemma_seq_lt_total, lemma_seq_lt_transitive, seq_lt};
use super::replanning::dependency_views;
use super::dependency::{
    requirement_coherent, dependency_error, CapabilityRequirement, CapabilityRequirementError,
    CapabilityRequirementView, Dependency, DependencyErrorKind, DependencyTarget,
    DependencyTargetView, DependencyValidationError, DependencyView, error_kind,
    capability_requirement_error_text, dependency_error_text, requirement_error_view,
    requirement_mismatch,
};

verus! {

/// Version of one logical global coordination plan; never zero.
#[derive(Clone, Copy, Debug, PartialEq, Eq, Structural, Hash, PartialOrd, Ord)]
pub struct PlanVersion(u64);

impl View for PlanVersion {
    type V = u64;

    closed spec fn view(&self) -> u64 {
        self.0
    }
}

impl PlanVersion {
    /// The first version of a plan.
    pub fn first() -> (r: PlanVersion)
        ensures
            r@ == 1,
    {
        PlanVersion(1)
    }

    /// Creates a plan version; version zero is not valid.
    pub fn new(value: u64) -> (r: Option<PlanVersion>)
        ensures
            r is Some <==> value != 0,
            r matches Some(v) ==> v@ == value,
    {
        if value == 0 {
            None
        } else {
            Some(PlanVersion(value))
        }
    }

    /// Returns the numeric version.
    pub fn value(self) -> (r: u64)
        ensures
            r == self@,
    {
        self.0
    }

    /// Returns the next version, or `None` when it would overflow.
    pub fn next(self) -> (r: Option<PlanVersion>)
        ensures
            r is Some <==> self@ < u64::MAX,
            r matches Some(v) ==> v@ == self@ + 1,
    {
        match self.0.checked_add(1) {
            Some(value) => Some(PlanVersion(value)),
            None => None,
        }
    }

    /// Renders the version in decimal.
    pub fn to_string(&self) -> (r: String)
        ensures
            r@ == decimal(self@ as nat),
    {
        decimal_text(self.0)
    }
}

impl Default for PlanVersion {
    fn default() -> (r: PlanVersion)
        ensures
            r@ == 1,
    {
        PlanVersion::first()
    }
}

/// Coordination lifecycle state of one global plan version.
#[derive(Clone, Copy, Debug, PartialEq, Eq, Structural, Hash)]
pub enum PlanState {
    /// Plan is being constructed.
    Draft,
    /// Plan has passed structural validation.
    Validated,
    /// Plan is the active coordination version.
    Active,
    /// A newer plan version has replaced this version.
    Superseded,
    /// Coordination represented by this version completed.
    Completed,
    /// Coordination represented by this version failed.
    Failed,
}

impl Default for PlanState {
    fn default() -> (r: PlanState)
        ensures
            r == PlanState::Draft,
    {
        PlanState::Draft
    }
}

/// The lifecycle transitions a plan may take.
pub open spec fn plan_transition_allowed(from: PlanState, to: PlanState) -> bool {
    match (from, to) {
        (PlanState::Draft, PlanState::Validated) => true,
        (PlanState::Draft, PlanState::Failed) => true,
        (PlanState::Validated, PlanState::Active) => true,
        (PlanState::Validated, PlanState::Superseded) => true,
        (PlanState::Validated, PlanState::Failed) => true,
        (PlanState::Active, PlanState::Superseded) => true,
        (PlanState::Active, PlanState::Completed) => true,
        (PlanState::Active, PlanState::Failed) => true,
        _ => false,
    }
}

/// Superseded, completed and failed plans are terminal.
pub open spec fn plan_state_terminal(state: PlanState) -> bool {
    state == PlanState::Superseded || state == PlanState::Completed || state == PlanState::Failed
}

impl PlanState {
    /// Returns whether this state is terminal.
    pub fn is_terminal(self) -> (r: bool)
        ensures
            r == plan_state_terminal(self),
    {
        match self {
            PlanState::Superseded | PlanState::Completed | PlanState::Failed => true,
            _ => false,
        }
    }

    /// Returns whether the plan's structure may still be constructed.
    pub fn is_mutable(self) -> (r: bool)
        ensures
            r == (self == PlanState::Draft),
    {
        match self {
            PlanState::Draft => true,
            _ => false,
        }
    }

    /// Determines whether a lifecycle transition is valid.
    pub fn can_transition_to(self, next: PlanState) -> (r: bool)
        ensures
            r == plan_transition_allowed(self, next),
    {
        match (self, next) {
            (PlanState::Draft, PlanState::Validated) => true,
            (PlanState::Draft, PlanState::Failed) => true,
            (PlanState::Validated, PlanState::Active) => true,
            (PlanState::Validated, PlanState::Superseded) => true,
            (PlanState::Validated, PlanState::Failed) => true,
            (PlanState::Active, PlanState::Superseded) => true,
            (PlanState::Active, PlanState::Completed) => true,
            (PlanState::Active, PlanState::Failed) => true,
            _ => false,
        }
    }
}

/// A terminal plan state admits no transition, and no transition
/// returns a plan to construction.
pub proof fn lemma_terminal_states_are_final(from: PlanState, to: PlanState)
    ensures
        plan_state_terminal(from) ==> !plan_transition_allowed(from, to),
        plan_transition_allowed(from, to) ==> to != PlanState::Draft,
{
}

/// The plan lifecycle: every plan that has not ended may be marked failed;
/// only a validated plan is activated and only a draft is validated; a
/// validated or active plan may be superseded; only an active plan
/// completes.
pub proof fn lemma_plan_lifecycle(from: PlanState, to: PlanState)
    ensures
        !plan_state_terminal(from) ==> plan_transition_allowed(from, PlanState::Failed),
        plan_transition_allowed(from, PlanState::Validated) <==> from == PlanState::Draft,
        plan_transition_allowed(from, PlanState::Active) <==> from == PlanState::Validated,
        plan_transition_allowed(from, PlanState::Superseded) <==> (from == PlanState::Validated
            || from == PlanState::Active),
        plan_transition_allowed(from, PlanState::Completed) <==> from == PlanState::Active,
        plan_transition_allowed(from, PlanState::Failed) <==> !plan_state_terminal(from),
{
}

/// Abstract value of a plan node.
pub struct PlanNodeView {
    pub node_id: Seq<char>,
    pub requirement: CapabilityRequirementView,
}

/// A globally relevant coordination node.
#[derive(Debug, PartialEq, Eq)]
pub struct PlanNode {
    node_id: NodeId,
    requirement: CapabilityRequirement,
}

impl View for PlanNode {
    type V = PlanNodeView;

    closed spec fn view(&self) -> PlanNodeView {
        PlanNodeView { node_id: self.node_id@, requirement: self.requirement@ }
    }
}

impl Clone for PlanNode {
    fn clone(&self) -> (r: Self)
        ensures
            r@ == self@,
    {
        PlanNode { node_id: self.node_id.clone(), requirement: self.requirement.clone() }
    }
}

/// Structural validation errors for a single plan node.
#[derive(Clone, Debug, PartialEq, Eq)]
pub enum PlanNodeValidationError {
    /// The capability requirement is internally inconsistent.
    InvalidCapabilityRequirement(CapabilityRequirementError),
}

impl PlanNode {
    /// Creates a global coordination node.
    pub fn new(node_id: NodeId, requirement: CapabilityRequirement) -> (r: PlanNode)
        ensures
            r@ == (PlanNodeView { node_id: node_id@, requirement: requirement@ }),
    {
        PlanNode { node_id, requirement }
    }

    /// Returns this node's identity.
    pub fn node_id(&self) -> (r: &NodeId)
        ensures
            r@ == self@.node_id,
    {
        &self.node_id
    }

    /// Returns the capability requirement represented by this node.
    pub fn requirement(&self) -> (r: &CapabilityRequirement)
        ensures
            r@ == self@.requirement,
    {
        &self.requirement
    }

    /// Returns the capability required by this node.
    pub fn capability_id(&self) -> (r: &CapabilityId)
        ensures
            r@ == self@.requirement.capability_id,
    {
        self.requirement.capability_id()
    }

    /// Validates the node's capability requirement.
    pub fn validate(&self) -> (r: Result<(), PlanNodeValidationError>)
        ensures
            r is Ok <==> requirement_coherent(self@.requirement),
            r matches Err(PlanNodeValidationError::InvalidCapabilityRequirement(e))
                ==> requirement_error_view(e) == requirement_mismatch(self@.requirement),
    {
        match self.requirement.validate() {
            Ok(()) => Ok(()),
            Err(e) => Err(PlanNodeValidationError::InvalidCapabilityRequirement(e)),
        }
    }
}

/// Error returned when an invalid lifecycle transition is attempted.
#[derive(Clone, Copy, Debug, PartialEq, Eq, Structural)]
pub struct InvalidPlanStateTransition {
    /// Previous state.
    pub from: PlanState,
    /// Requested state.
    pub to: PlanState,
}

/// Abstract value of a plan validation error.
pub enum PlanValidationErrorView {
    DuplicateNodeId { node_id: Seq<char> },
    InvalidNode { node_id: Seq<char>, mismatch: (Seq<char>, Seq<char>) },
    MissingSourceNode { node_id: Seq<char> },
    MissingTargetNode { node_id: Seq<char> },
    InvalidDependency { source: Seq<char>, kind: DependencyErrorKind },
    DependencyCycle { nodes: Seq<Seq<char>> },
}

/// The name of a plan state.
pub open spec fn plan_state_name(s: PlanState) -> Seq<char> {
    match s {
        PlanState::Draft => "Draft"@,
        PlanState::Validated => "Validated"@,
        PlanState::Active => "Active"@,
        PlanState::Superseded => "Superseded"@,
        PlanState::Completed => "Completed"@,
        PlanState::Failed => "Failed"@,
    }
}

impl PlanState {
    /// Returns the name of the state.
    pub fn name(&self) -> (r: &'static str)
        ensures
            r@ == plan_state_name(*self),
    {
        match self {
            PlanState::Draft => "Draft",
            PlanState::Validated => "Validated",
            PlanState::Active => "Active",
            PlanState::Superseded => "Superseded",
            PlanState::Completed => "Completed",
            PlanState::Failed => "Failed",
        }
    }
}

/// The human-readable description of a node validation error.
pub open spec fn node_error_text(e: PlanNodeValidationError) -> Seq<char> {
    match e {
        PlanNodeValidationError::InvalidCapabilityRequirement(error) => "invalid capability requirement: "@
            + capability_requirement_error_text(error),
    }
}

impl PlanNodeValidationError {
    /// Human-readable description of the error.
    pub fn to_string(&self) -> (r: String)
        ensures
            r@ == node_error_text(*self),
    {
        match self {
            PlanNodeValidationError::InvalidCapabilityRequirement(error) => {
                let text = "invalid capability requirement: ".to_string();
                let detail = error.to_string();
                text.concat(detail.as_str())
            },
        }
    }
}

impl InvalidPlanStateTransition {
    /// Human-readable description of the rejected transition.
    pub fn to_string(&self) -> (r: String)
        ensures
            r@ == "invalid plan state transition: "@ + plan_state_name(self.from) + " -> "@
                + plan_state_name(self.to),
    {
        let text = "invalid plan state transition: ".to_string();
        let text = text.concat(self.from.name());
        let text = text.concat(" -> ");
        text.concat(self.to.name())
    }
}

/// Node identities joined by arrows.
pub open spec fn arrow_joined(ids: Seq<Seq<char>>) -> Seq<char>
    decreases ids.len(),
{
    if ids.len() == 0 {
        Seq::empty()
    } else if ids.len() == 1 {
        ids[0]
    } else {
        arrow_joined(ids.drop_last()) + " -> "@ + ids.last()
    }
}

/// The human-readable description of a plan validation error.
pub open spec fn plan_error_text(e: PlanValidationError) -> Seq<char> {
    match e {
        PlanValidationError::DuplicateNodeId { node_id } => "duplicate plan node id: "@ + node_id@,
        PlanValidationError::InvalidNode { node_id, error } => "invalid plan node "@ + node_id@
            + ": "@ + node_error_text(error),
        PlanValidationError::MissingSourceNode { node_id } => "dependency source node is missing from plan: "@
            + node_id@,
        PlanValidationError::MissingTargetNode { node_id } => "dependency target node is missing from plan: "@
            + node_id@,
        PlanValidationError::InvalidDependency { source, error } => "invalid dependency from "@
            + source@ + ": "@ + dependency_error_text(error),
        PlanValidationError::DependencyCycle { nodes } => "dependency cycle detected: "@
            + arrow_joined(id_views(nodes@)),
    }
}

/// Renders node identities joined by arrows.
fn join_node_ids(nodes: &Vec<NodeId>) -> (r: String)
    ensures
        r@ == arrow_joined(id_views(nodes@)),
{
    let ghost ids = id_views(nodes@);
    let mut text = String::new();
    let mut i: usize = 0;
    while i < nodes.len()
        invariant
            i <= nodes@.len(),
            ids == id_views(nodes@),
            text@ == arrow_joined(ids.take(i as int)),
        decreases nodes@.len() - i,
    {
        proof {
            assert(ids.take(i + 1).drop_last() =~= ids.take(i as int));
            assert(ids.take(i + 1).last() == nodes@[i as int]@);
        }
        if i > 0 {
            text.append(" -> ");
        }
        text.append(nodes[i].as_str());
        i = i + 1;
    }
    proof {
        assert(ids.take(nodes@.len() as int) =~= ids);
    }
    text
}

impl PlanValidationError {
    /// Human-readable description of the error.
    pub fn to_string(&self) -> (r: String)
        ensures
            r@ == plan_error_text(*self),
    {
        match self {
            PlanValidationError::DuplicateNodeId { node_id } => {
                let text = "duplicate plan node id: ".to_string();
                text.concat(node_id.as_str())
            },
            PlanValidationError::InvalidNode { node_id, error } => {
                let text = "invalid plan node ".to_string();
                let text = text.concat(node_id.as_str());
                let text = text.concat(": ");
                let detail = error.to_string();
                text.concat(detail.as_str())
            },
            PlanValidationError::MissingSourceNode { node_id } => {
                let text = "dependency source node is missing from plan: ".to_string();
                text.concat(node_id.as_str())
            },
            PlanValidationError::MissingTargetNode { node_id } => {
                let text = "dependency target node is missing from plan: ".to_string();
                text.concat(node_id.as_str())
            },
            PlanValidationError::InvalidDependency { source, error } => {
                let text = "invalid dependency from ".to_string();
                let text = text.concat(source.as_str());
                let text = text.concat(": ");
                let detail = error.to_string();
                text.concat(detail.as_str())
            },
            PlanValidationError::DependencyCycle { nodes } => {
                let text = "dependency cycle detected: ".to_string();
                let joined = join_node_ids(nodes);
                text.concat(joined.as_str())
            },
        }
    }
}

/// Structural validation errors for a complete global coordination plan.
#[derive(Clone, Debug, PartialEq, Eq)]
pub enum PlanValidationError {
    /// The same `NodeId` appears more than once.
    DuplicateNodeId { node_id: NodeId },
    /// A plan node contains invalid structural metadata.
    InvalidNode { node_id: NodeId, error: PlanNodeValidationError },
    /// A dependency references a source node that does not exist.
    MissingSourceNode { node_id: NodeId },
    /// A concrete node target does not exist.
    MissingTargetNode { node_id: NodeId },
    /// A dependency itself is structurally invalid.
    InvalidDependency { source: NodeId, error: DependencyValidationError },
    /// A concrete node-to-node dependency cycle exists.
    DependencyCycle { nodes: Vec<NodeId> },
}

/// The abstract values of a list of node identities.
pub open spec fn id_views(ids: Seq<NodeId>) -> Seq<Seq<char>> {
    ids.map_values(|id: NodeId| id@)
}

impl View for PlanValidationError {
    type V = PlanValidationErrorView;

    open spec fn view(&self) -> PlanValidationErrorView {
        match self {
            PlanValidationError::DuplicateNodeId { node_id } =>
                PlanValidationErrorView::DuplicateNodeId { node_id: node_id@ },
            PlanValidationError::InvalidNode { node_id, error } =>
                PlanValidationErrorView::InvalidNode {
                node_id: node_id@,
                mismatch: match error {
                    PlanNodeValidationError::InvalidCapabilityRequirement(e) => requirement_error_view(
                        *e,
                    ),
                },
            },
            PlanValidationError::MissingSourceNode { node_id } =>
                PlanValidationErrorView::MissingSourceNode { node_id: node_id@ },
            PlanValidationError::MissingTargetNode { node_id } =>
                PlanValidationErrorView::MissingTargetNode { node_id: node_id@ },
            PlanValidationError::InvalidDependency { source, error } =>
                PlanValidationErrorView::InvalidDependency {
                source: source@,
                kind: error_kind(*error),
            },
            PlanValidationError::DependencyCycle { nodes } =>
                PlanValidationErrorView::DependencyCycle { nodes: id_views(nodes@) },
        }
    }
}

/// Errors produced while constructing a plan.
#[derive(Clone, Debug, PartialEq, Eq)]
pub enum PlanBuildError {
    /// A node with this identity has already been added.
    DuplicateNodeId { node_id: NodeId },
    /// The dependency itself violates its structural invariants.
    InvalidDependency { source: NodeId, error: DependencyValidationError },
    /// The complete plan failed structural validation.
    Validation(PlanValidationError),
}

/// The abstract values of a list of plan nodes.
pub open spec fn node_views(nodes: Seq<PlanNode>) -> Seq<PlanNodeView> {
    nodes.map_values(|n: PlanNode| n@)
}

/// The identities of a list of plan nodes, in order.
pub open spec fn node_ids(nodes: Seq<PlanNodeView>) -> Seq<Seq<char>> {
    nodes.map_values(|n: PlanNodeView| n.node_id)
}

/// Node `k` repeats the identity of an earlier node.
pub open spec fn repeats_earlier(nodes: Seq<PlanNodeView>, k: int) -> bool {
    exists|j: int| 0 <= j < k && (#[trigger] nodes[j]).node_id == nodes[k].node_id
}

/// Node `k` repeats an earlier identity or carries an incoherent
/// requirement.
pub open spec fn node_faulty(nodes: Seq<PlanNodeView>, k: int) -> bool {
    repeats_earlier(nodes, k) || !requirement_coherent(nodes[k].requirement)
}

/// `k` is the first faulty node.
pub open spec fn first_faulty_node(nodes: Seq<PlanNodeView>, k: int) -> bool {
    &&& 0 <= k < nodes.len()
    &&& node_faulty(nodes, k)
    &&& forall|j: int| 0 <= j < k ==> !node_faulty(nodes, j)
}

/// The error reported for a faulty node: a repeated identity first.
pub open spec fn node_fault(nodes: Seq<PlanNodeView>, k: int) -> PlanValidationErrorView {
    if repeats_earlier(nodes, k) {
        PlanValidationErrorView::DuplicateNodeId { node_id: nodes[k].node_id }
    } else {
        PlanValidationErrorView::InvalidNode {
            node_id: nodes[k].node_id,
            mismatch: requirement_mismatch(nodes[k].requirement),
        }
    }
}

/// Some node carries the given identity.
pub open spec fn has_node(nodes: Seq<PlanNodeView>, id: Seq<char>) -> bool {
    exists|i: int| 0 <= i < nodes.len() && (#[trigger] nodes[i]).node_id == id
}

/// A dependency is incoherent, starts outside the plan, or targets a node
/// outside the plan.
pub open spec fn dependency_faulty(nodes: Seq<PlanNodeView>, d: DependencyView) -> bool {
    ||| dependency_error(d) is Some
    ||| !has_node(nodes, d.source)
    ||| (d.target matches DependencyTargetView::Node(t) && !has_node(nodes, t))
}

/// The error reported for a faulty dependency, in the order the checks
/// apply.
pub open spec fn dependency_fault(nodes: Seq<PlanNodeView>, d: DependencyView) -> PlanValidationErrorView {
    if dependency_error(d) is Some {
        PlanValidationErrorView::InvalidDependency {
            source: d.source,
            kind: dependency_error(d).unwrap(),
        }
    } else if !has_node(nodes, d.source) {
        PlanValidationErrorView::MissingSourceNode { node_id: d.source }
    } else {
        PlanValidationErrorView::MissingTargetNode { node_id: d.target->Node_0 }
    }
}

/// `k` is the first faulty dependency.
pub open spec fn first_faulty_dependency(
    nodes: Seq<PlanNodeView>,
    deps: Seq<DependencyView>,
    k: int,
) -> bool {
    &&& 0 <= k < deps.len()
    &&& dependency_faulty(nodes, deps[k])
    &&& forall|j: int| 0 <= j < k ==> !dependency_faulty(nodes, #[trigger] deps[j])
}

/// The first structural fault of a plan: node faults in node order, then
/// dependency faults in dependency order.
pub open spec fn structural_fault(nodes: Seq<PlanNodeView>, deps: Seq<DependencyView>) -> Option<
    PlanValidationErrorView,
> {
    if exists|k: int| first_faulty_node(nodes, k) {
        Some(node_fault(nodes, choose|k: int| first_faulty_node(nodes, k)))
    } else if exists|k: int| first_faulty_dependency(nodes, deps, k) {
        Some(dependency_fault(nodes, deps[choose|k: int| first_faulty_dependency(nodes, deps, k)]))
    } else {
        None
    }
}

/// Some dependency leads from node `a` to the concrete node `b`.
pub open spec fn has_edge(deps: Seq<DependencyView>, a: Seq<char>, b: Seq<char>) -> bool {
    exists|i: int|
        0 <= i < deps.len() && (#[trigger] deps[i]).source == a && deps[i].target
            == DependencyTargetView::Node(b)
}

/// A closed walk along node-to-node dependencies.
pub open spec fn is_cycle(deps: Seq<DependencyView>, c: Seq<Seq<char>>) -> bool {
    &&& c.len() >= 2
    &&& c[0] == c[c.len() - 1]
    &&& forall|i: int| 0 <= i < c.len() - 1 ==> has_edge(deps, #[trigger] c[i], c[i + 1])
}

/// A closed walk that visits no node twice before closing.
pub open spec fn is_simple_cycle(deps: Seq<DependencyView>, c: Seq<Seq<char>>) -> bool {
    is_cycle(deps, c) && c.drop_last().no_duplicates()
}

/// The node-to-node dependencies form no cycle.
pub open spec fn acyclic(deps: Seq<DependencyView>) -> bool {
    forall|c: Seq<Seq<char>>| !#[trigger] is_cycle(deps, c)
}

/// Abstract value of a plan.
pub struct PlanView {
    pub plan_id: Seq<char>,
    pub operation_id: Seq<char>,
    pub version: u64,
    pub state: PlanState,
    pub nodes: Seq<PlanNodeView>,
    pub dependencies: Seq<DependencyView>,
}

/// One immutable version of the global Control Plane coordination plan.
#[derive(Debug, PartialEq, Eq)]
pub struct Plan {
    plan_id: PlanId,
    operation_id: OperationId,
    version: PlanVersion,
    state: PlanState,
    nodes: Vec<PlanNode>,
    dependencies: Vec<Dependency>,
}

impl View for Plan {
    type V = PlanView;

    closed spec fn view(&self) -> PlanView {
        PlanView {
            plan_id: self.plan_id@,
            operation_id: self.operation_id@,
            version: self.version@,
            state: self.state,
            nodes: node_views(self.nodes@),
            dependencies: dependency_views(self.dependencies@),
        }
    }
}

fn copy_nodes(nodes: &Vec<PlanNode>) -> (r: Vec<PlanNode>)
    ensures
        node_views(r@) == node_views(nodes@),
{
    let mut out: Vec<PlanNode> = Vec::new();
    let mut k: usize = 0;
    while k < nodes.len()
        invariant
            k <= nodes@.len(),
            node_views(out@) == node_views(nodes@).take(k as int),
        decreases nodes@.len() - k,
    {
        let n = nodes[k].clone();
        let ghost before = node_views(out@);
        out.push(n);
        proof {
            assert(node_views(out@) =~= before.push(n@));
            assert(node_views(nodes@).take(k + 1) =~= node_views(nodes@).take(k as int).push(n@));
        }
        k = k + 1;
    }
    proof {
        assert(node_views(nodes@).take(k as int) =~= node_views(nodes@));
    }
    out
}

fn copy_dependencies(deps: &Vec<Dependency>) -> (r: Vec<Dependency>)
    ensures
        dependency_views(r@) == dependency_views(deps@),
{
    let mut out: Vec<Dependency> = Vec::new();
    let mut k: usize = 0;
    while k < deps.len()
        invariant
            k <= deps@.len(),
            dependency_views(out@) == dependency_views(deps@).take(k as int),
        decreases deps@.len() - k,
    {
        let d = deps[k].clone();
        let ghost before = dependency_views(out@);
        out.push(d);
        proof {
            assert(dependency_views(out@) =~= before.push(d@));
            assert(dependency_views(deps@).take(k + 1) =~= dependency_views(deps@).take(k as int).push(
                d@,
            ));
        }
        k = k + 1;
    }
    proof {
        assert(dependency_views(deps@).take(k as int) =~= dependency_views(deps@));
    }
    out
}

impl Clone for Plan {
    fn clone(&self) -> (r: Self)
        ensures
            r@ == self@,
    {
        Plan {
            plan_id: self.plan_id.clone(),
            operation_id: self.operation_id.clone(),
            version: self.version,
            state: self.state,
            nodes: copy_nodes(&self.nodes),
            dependencies: copy_dependencies(&self.dependencies),
        }
    }
}

/// Position of the first node carrying the given identity.
fn find_node(nodes: &Vec<PlanNode>, id: &NodeId) -> (r: Option<usize>)
    ensures
        match r {
            Some(i) => i < nodes@.len() && nodes@[i as int]@.node_id == id@,
            None => !has_node(node_views(nodes@), id@),
        },
{
    let mut k: usize = 0;
    while k < nodes.len()
        invariant
            k <= nodes@.len(),
            forall|j: int| 0 <= j < k ==> (#[trigger] nodes@[j])@.node_id != id@,
        decreases nodes@.len() - k,
    {
        if nodes[k].node_id.same_as(id) {
            return Some(k);
        }
        k = k + 1;
    }
    proof {
        let vs = node_views(nodes@);
        assert forall|i: int| 0 <= i < vs.len() implies (#[trigger] vs[i]).node_id != id@ by {
            assert(vs[i] == nodes@[i]@);
        }
    }
    None
}

proof fn lemma_first_faulty_node_unique(nodes: Seq<PlanNodeView>, k: int)
    requires
        first_faulty_node(nodes, k),
    ensures
        structural_fault(nodes, Seq::empty()) is Some,
        forall|deps: Seq<DependencyView>| #[trigger] structural_fault(nodes, deps) == Some(node_fault(nodes, k)),
{
    assert forall|deps: Seq<DependencyView>| #[trigger] structural_fault(nodes, deps) == Some(node_fault(nodes, k)) by {
        let m = choose|m: int| first_faulty_node(nodes, m);
        if m < k {
            assert(!node_faulty(nodes, m));
        }
        if k < m {
            assert(!node_faulty(nodes, k));
        }
    }
    assert(structural_fault(nodes, Seq::empty()) == Some(node_fault(nodes, k)));
}

proof fn lemma_first_faulty_dependency_unique(
    nodes: Seq<PlanNodeView>,
    deps: Seq<DependencyView>,
    k: int,
)
    requires
        forall|j: int| 0 <= j < nodes.len() ==> !node_faulty(nodes, j),
        first_faulty_dependency(nodes, deps, k),
    ensures
        structural_fault(nodes, deps) == Some(dependency_fault(nodes, deps[k])),
{
    let m = choose|m: int| first_faulty_dependency(nodes, deps, m);
    if m < k {
        assert(!dependency_faulty(nodes, deps[m]));
    }
    if k < m {
        assert(!dependency_faulty(nodes, deps[k]));
    }
}

/// Depth-first traversal state used only by plan-level cycle detection.
#[derive(Clone, Copy, Debug, PartialEq, Eq, Structural)]
pub enum VisitState {
    Unvisited,
    Visiting,
    Visited,
}

/// The positions of the nodes a traversal has not reached yet.
pub open spec fn unvisited(s: Seq<VisitState>) -> Set<int> {
    Set::new(|i: int| 0 <= i < s.len() && s[i] == VisitState::Unvisited)
}

/// The number of nodes a traversal has not reached yet.
pub open spec fn count_unvisited(s: Seq<VisitState>) -> nat {
    unvisited(s).len()
}

/// The unreached positions form a finite set.
proof fn lemma_unvisited_finite(s: Seq<VisitState>)
    ensures
        unvisited(s).finite(),
{
    lemma_int_range(0, s.len() as int);
    lemma_len_subset(unvisited(s), set_int_range(0, s.len() as int));
}

/// Reaching more nodes never increases the count of unreached ones, and
/// reaching one more strictly decreases it.
proof fn lemma_count_unvisited_mono(a: Seq<VisitState>, b: Seq<VisitState>, k: int)
    requires
        a.len() == b.len(),
        forall|i: int| 0 <= i < b.len() && b[i] == VisitState::Unvisited ==> a[i]
            == VisitState::Unvisited,
    ensures
        count_unvisited(b) <= count_unvisited(a),
        0 <= k < a.len() && a[k] == VisitState::Unvisited && b[k] != VisitState::Unvisited
            ==> count_unvisited(b) < count_unvisited(a),
{
    lemma_unvisited_finite(a);
    lemma_unvisited_finite(b);
    lemma_len_subset(unvisited(b), unvisited(a));
    if 0 <= k < a.len() && a[k] == VisitState::Unvisited && b[k] != VisitState::Unvisited {
        assert(unvisited(a).contains(k));
        lemma_len_subset(unvisited(b), unvisited(a).remove(k));
    }
}

/// Node `j` is a concrete dependency target of node `i`.
pub open spec fn index_edge(ids: Seq<Seq<char>>, deps: Seq<DependencyView>, i: int, j: int) -> bool {
    has_edge(deps, ids[i], ids[j])
}

/// What a depth-first traversal keeps true: every node is unreached, on
/// the current path, or finished; the path follows edges; and every
/// successor of a finished node finished before it.
spec fn dfs_invariant(
    ids: Seq<Seq<char>>,
    deps: Seq<DependencyView>,
    color: Seq<VisitState>,
    stack: Seq<usize>,
    finished: Seq<usize>,
) -> bool {
    &&& color.len() == ids.len()
    &&& forall|v: int|
        0 <= v < ids.len() ==> ((#[trigger] color[v] == VisitState::Visiting) <==> stack.contains(
            v as usize,
        ))
    &&& forall|v: int|
        0 <= v < ids.len() ==> ((#[trigger] color[v] == VisitState::Visited) <==> finished.contains(
            v as usize,
        ))
    &&& forall|p: int| 0 <= p < stack.len() ==> #[trigger] stack[p] < ids.len()
    &&& forall|p: int| 0 <= p < finished.len() ==> #[trigger] finished[p] < ids.len()
    &&& stack.no_duplicates()
    &&& finished.no_duplicates()
    &&& forall|p: int|
        0 <= p < stack.len() - 1 ==> index_edge(ids, deps, #[trigger] stack[p] as int, stack[p + 1] as int)
    &&& forall|p: int, w: int|
        #![trigger finished[p], index_edge(ids, deps, finished[p] as int, w)]
        0 <= p < finished.len() && 0 <= w < ids.len() && index_edge(ids, deps, finished[p] as int, w)
            ==> exists|q: int| 0 <= q < p && #[trigger] finished[q] == w
}

/// A sequence of node positions that lists each node exactly once.
pub open spec fn is_node_order(order: Seq<usize>, n: int) -> bool {
    &&& order.len() == n
    &&& order.no_duplicates()
    &&& forall|p: int| 0 <= p < order.len() ==> #[trigger] order[p] < n
    &&& forall|v: usize| v < n ==> #[trigger] order.contains(v)
}

/// The state of a depth-first traversal: node colours, the current path and
/// the finished nodes in finishing order.
#[verifier::ext_equal]
pub struct DfsState {
    pub color: Seq<VisitState>,
    pub stack: Seq<usize>,
    pub finished: Seq<usize>,
}

/// The position of the first occurrence of `x` in `s`.
pub open spec fn first_index(s: Seq<usize>, x: usize) -> int
    decreases s.len(),
{
    if s.len() == 0 || s[0] == x {
        0
    } else {
        1 + first_index(s.drop_first(), x)
    }
}

/// The first position holding `x` is the position before which `x` does
/// not occur.
proof fn lemma_first_index(s: Seq<usize>, x: usize, p: int)
    requires
        0 <= p < s.len(),
        s[p] == x,
        forall|q: int| 0 <= q < p ==> s[q] != x,
    ensures
        first_index(s, x) == p,
    decreases p,
{
    if p > 0 {
        assert(s[0] != x);
        assert forall|q: int| 0 <= q < p - 1 implies s.drop_first()[q] != x by {
            assert(s.drop_first()[q] == s[q + 1]);
        }
        lemma_first_index(s.drop_first(), x, p - 1);
    }
}

/// The identities along a closed walk read off the path from position `p`.
proof fn lemma_path_cycle_ids(
    stack: Seq<usize>,
    next: usize,
    p: int,
    ids: Seq<Seq<char>>,
    path: Seq<Seq<char>>,
)
    requires
        0 <= p < stack.len(),
        first_index(stack, next) == p,
        path == Seq::new((stack.len() - p) as nat, |t: int| ids[stack[p + t] as int]),
    ensures
        path.push(ids[next as int]) == path_cycle(stack, next).map_values(
            |v: usize| ids[v as int],
        ),
{
    let w = path_cycle(stack, next);
    assert(w == stack.subrange(p, stack.len() as int).push(next));
    assert(path.push(ids[next as int]) =~= w.map_values(|v: usize| ids[v as int]));
}

/// The closed walk that a back edge to `next` closes: the path from `next`
/// to its end, then `next` again.
pub open spec fn path_cycle(stack: Seq<usize>, next: usize) -> Seq<usize> {
    stack.subrange(first_index(stack, next), stack.len() as int).push(next)
}

/// Depth-first visit of `cur` from state `st`, taking successors in
/// `order`: the state afterwards and the first closed walk met, if any.
pub open spec fn dfs_visit(
    ids: Seq<Seq<char>>,
    deps: Seq<DependencyView>,
    order: Seq<usize>,
    cur: usize,
    st: DfsState,
) -> (DfsState, Option<Seq<usize>>)
    decreases count_unvisited(st.color), 1nat, 0int,
{
    if cur < st.color.len() && st.color[cur as int] == VisitState::Unvisited {
        let entered = DfsState {
            color: st.color.update(cur as int, VisitState::Visiting),
            stack: st.stack.push(cur),
            finished: st.finished,
        };
        dfs_scan(ids, deps, order, cur, 0, entered, count_unvisited(st.color))
    } else {
        (st, None)
    }
}

/// The rest of a visit of `cur` from successor position `k` on.
pub open spec fn dfs_scan(
    ids: Seq<Seq<char>>,
    deps: Seq<DependencyView>,
    order: Seq<usize>,
    cur: usize,
    k: int,
    st: DfsState,
    bound: nat,
) -> (DfsState, Option<Seq<usize>>)
    decreases bound, 0nat, order.len() - k,
{
    if k < 0 || k >= order.len() {
        (
            DfsState {
                color: st.color.update(cur as int, VisitState::Visited),
                stack: st.stack.drop_last(),
                finished: st.finished.push(cur),
            },
            None,
        )
    } else {
        let next = order[k];
        if next < st.color.len() && index_edge(ids, deps, cur as int, next as int) {
            if st.color[next as int] == VisitState::Unvisited {
                if count_unvisited(st.color) < bound {
                    let (after, found) = dfs_visit(ids, deps, order, next, st);
                    if found is Some {
                        (after, found)
                    } else {
                        dfs_scan(ids, deps, order, cur, k + 1, after, bound)
                    }
                } else {
                    (st, None)
                }
            } else if st.color[next as int] == VisitState::Visiting {
                (st, Some(path_cycle(st.stack, next)))
            } else {
                dfs_scan(ids, deps, order, cur, k + 1, st, bound)
            }
        } else {
            dfs_scan(ids, deps, order, cur, k + 1, st, bound)
        }
    }
}

/// A traversal over the roots in `order` from position `k` on: the first
/// closed walk met, if any.
pub open spec fn dfs_roots(
    ids: Seq<Seq<char>>,
    deps: Seq<DependencyView>,
    order: Seq<usize>,
    k: int,
    st: DfsState,
) -> Option<Seq<usize>>
    decreases order.len() - k,
{
    if k < 0 || k >= order.len() {
        None
    } else {
        let start = order[k];
        if start < st.color.len() && st.color[start as int] == VisitState::Unvisited {
            let (after, found) = dfs_visit(ids, deps, order, start, st);
            if found is Some {
                found
            } else {
                dfs_roots(ids, deps, order, k + 1, after)
            }
        } else {
            dfs_roots(ids, deps, order, k + 1, st)
        }
    }
}

/// `order` lists the node positions in strictly increasing identity order.
pub open spec fn identity_order(ids: Seq<Seq<char>>, order: Seq<usize>) -> bool {
    &&& is_node_order(order, ids.len() as int)
    &&& forall|p: int, q: int|
        0 <= p < q < order.len() ==> seq_lt(ids[#[trigger] order[p] as int], ids[#[trigger] order[q] as int])
}

/// The traversal state before any node is reached.
pub open spec fn initial_state(n: nat) -> DfsState {
    DfsState {
        color: Seq::new(n, |v: int| VisitState::Unvisited),
        stack: Seq::empty(),
        finished: Seq::empty(),
    }
}

/// A node order sorted by pairwise distinct identities is strictly sorted.
proof fn lemma_sorted_order_is_identity_order(ids: Seq<Seq<char>>, order: Seq<usize>)
    requires
        ids.no_duplicates(),
        is_node_order(order, ids.len() as int),
        forall|p: int, q: int|
            0 <= p < q < order.len() ==> !seq_lt(ids[#[trigger] order[q] as int], ids[#[trigger] order[p] as int]),
    ensures
        identity_order(ids, order),
{
    assert forall|p: int, q: int| 0 <= p < q < order.len() implies seq_lt(
        ids[#[trigger] order[p] as int],
        ids[#[trigger] order[q] as int],
    ) by {
        assert(order[p] != order[q]);
        assert(ids[order[p] as int] != ids[order[q] as int]);
        lemma_seq_lt_total(ids[order[p] as int], ids[order[q] as int]);
    }
}

/// At most one node order is strictly sorted by identity, so the order the
/// traversal uses is the one chosen by `reported_cycle`.
proof fn lemma_identity_order_unique(ids: Seq<Seq<char>>, order: Seq<usize>)
    requires
        identity_order(ids, order),
    ensures
        (choose|o: Seq<usize>| identity_order(ids, o)) == order,
{
    let other = choose|o: Seq<usize>| identity_order(ids, o);
    assert(identity_order(ids, other));
    lemma_identity_orders_agree(ids, order, other, order.len() as int);
    assert(other =~= order);
}

/// Two orders strictly sorted by identity agree on their first `d`
/// positions.
proof fn lemma_identity_orders_agree(ids: Seq<Seq<char>>, o1: Seq<usize>, o2: Seq<usize>, d: int)
    requires
        identity_order(ids, o1),
        identity_order(ids, o2),
        0 <= d <= o1.len(),
    ensures
        forall|e: int| 0 <= e < d ==> o1[e] == o2[e],
    decreases d,
{
    if d > 0 {
        let t = d - 1;
        lemma_identity_orders_agree(ids, o1, o2, t);
        let a = o1[t];
        let b = o2[t];
        if a != b {
            assert(o1.contains(b));
            let j = choose|j: int| 0 <= j < o1.len() && o1[j] == b;
            if j < t {
                assert(o2[j] == b);
                assert(false);
            }
            assert(j > t);
            assert(seq_lt(ids[o1[t] as int], ids[o1[j] as int]));
            assert(o2.contains(a));
            let i = choose|i: int| 0 <= i < o2.len() && o2[i] == a;
            if i < t {
                assert(o1[i] == a);
                assert(false);
            }
            assert(i > t);
            assert(seq_lt(ids[o2[t] as int], ids[o2[i] as int]));
            lemma_seq_lt_asymmetric(ids[a as int], ids[b as int]);
        }
    }
}

/// The closed walk cycle detection reports for a plan: the first one met by
/// a depth-first traversal that takes roots and successors in identity
/// order, as node identities; `None` when it meets none.
pub open spec fn reported_cycle(nodes: Seq<PlanNodeView>, deps: Seq<DependencyView>) -> Option<
    Seq<Seq<char>>,
> {
    let ids = node_ids(nodes);
    let order = choose|o: Seq<usize>| identity_order(ids, o);
    match dfs_roots(ids, deps, order, 0, initial_state(ids.len())) {
        Some(c) => Some(c.map_values(|v: usize| ids[v as int])),
        None => None,
    }
}

/// `f` and `g` renumber the positions below `n` and undo each other.
spec fn renumbering(f: spec_fn(usize) -> usize, g: spec_fn(usize) -> usize, n: nat) -> bool {
    &&& n <= usize::MAX
    &&& forall|v: usize| v < n ==> #[trigger] f(v) < n && g(f(v)) == v
    &&& forall|w: usize| w < n ==> #[trigger] g(w) < n && f(g(w)) == w
}

/// Renumbering the node positions of one graph by `f` gives the other:
/// position `v` of the first holds the identity at `f(v)` in the second,
/// and both dependency lists relate the same identities.
spec fn renumbered_graph(
    ids1: Seq<Seq<char>>,
    deps1: Seq<DependencyView>,
    ids2: Seq<Seq<char>>,
    deps2: Seq<DependencyView>,
    f: spec_fn(usize) -> usize,
    g: spec_fn(usize) -> usize,
    n: nat,
) -> bool {
    &&& renumbering(f, g, n)
    &&& ids1.len() == n
    &&& ids2.len() == n
    &&& forall|v: usize| v < n ==> ids2[#[trigger] f(v) as int] == ids1[v as int]
    &&& forall|a: Seq<char>, b: Seq<char>|
        #![trigger has_edge(deps1, a, b)]
        #![trigger has_edge(deps2, a, b)]
        has_edge(deps1, a, b) == has_edge(deps2, a, b)
}

/// Every position a traversal state holds is below `n`.
spec fn state_in_range(st: DfsState, n: nat) -> bool {
    &&& st.color.len() == n
    &&& forall|p: int| 0 <= p < st.stack.len() ==> #[trigger] st.stack[p] < n
    &&& forall|p: int| 0 <= p < st.finished.len() ==> #[trigger] st.finished[p] < n
}

/// Every position of a reported walk is below `n`.
spec fn found_in_range(r: Option<Seq<usize>>, n: nat) -> bool {
    r matches Some(c) ==> forall|p: int| 0 <= p < c.len() ==> #[trigger] c[p] < n
}

/// Node colours after renumbering: position `w` takes the colour of `g(w)`.
spec fn renumber_color(c: Seq<VisitState>, g: spec_fn(usize) -> usize) -> Seq<VisitState> {
    Seq::new(c.len(), |w: int| c[g(w as usize) as int])
}

/// A traversal state after renumbering its positions.
spec fn renumber_state(st: DfsState, f: spec_fn(usize) -> usize, g: spec_fn(usize) -> usize) -> DfsState {
    DfsState {
        color: renumber_color(st.color, g),
        stack: st.stack.map_values(f),
        finished: st.finished.map_values(f),
    }
}

/// A reported walk after renumbering its positions.
spec fn renumber_found(r: Option<Seq<usize>>, f: spec_fn(usize) -> usize) -> Option<Seq<usize>> {
    match r {
        Some(c) => Some(c.map_values(f)),
        None => None,
    }
}

/// Renumbering keeps the number of unreached nodes.
proof fn lemma_renumber_count(
    c: Seq<VisitState>,
    f: spec_fn(usize) -> usize,
    g: spec_fn(usize) -> usize,
    n: nat,
)
    requires
        renumbering(f, g, n),
        c.len() == n,
    ensures
        count_unvisited(renumber_color(c, g)) == count_unvisited(c),
{
    let s1 = unvisited(c);
    let s2 = unvisited(renumber_color(c, g));
    let m = |v: int| f(v as usize) as int;
    lemma_unvisited_finite(c);
    assert forall|x: int| s1.map(m).contains(x) <==> s2.contains(x) by {
        if s2.contains(x) {
            let v = g(x as usize) as int;
            assert(s1.contains(v));
            assert(m(v) == x);
        }
        if s1.map(m).contains(x) {
            let v = choose|v: int| s1.contains(v) && x == m(v);
            assert(f(v as usize) < n);
            assert(x as usize == f(v as usize));
            assert(g(x as usize) == v as usize);
            assert(renumber_color(c, g)[x] == c[v]);
        }
    }
    assert(s1.map(m) =~= s2);
    assert forall|v1: int, v2: int| s1.contains(v1) && s1.contains(v2) && #[trigger] m(v1) == #[trigger] m(
        v2,
    ) implies v1 == v2 by {
        assert(g(f(v1 as usize)) == v1 as usize);
        assert(g(f(v2 as usize)) == v2 as usize);
    }
    lemma_map_size(s1, s2, m);
}

/// Changing one colour commutes with renumbering.
proof fn lemma_renumber_update(
    c: Seq<VisitState>,
    f: spec_fn(usize) -> usize,
    g: spec_fn(usize) -> usize,
    n: nat,
    cur: usize,
    x: VisitState,
)
    requires
        renumbering(f, g, n),
        c.len() == n,
        cur < n,
    ensures
        renumber_color(c.update(cur as int, x), g) == renumber_color(c, g).update(f(cur) as int, x),
{
    assert forall|w: int| 0 <= w < n implies renumber_color(c.update(cur as int, x), g)[w]
        == renumber_color(c, g).update(f(cur) as int, x)[w] by {
        if w == f(cur) as int {
            assert(g(f(cur)) == cur);
        } else {
            assert(f(g(w as usize)) == w as usize);
        }
    }
    assert(renumber_color(c.update(cur as int, x), g) =~= renumber_color(c, g).update(
        f(cur) as int,
        x,
    ));
}

/// The first occurrence of a position moves with the renumbering.
proof fn lemma_renumber_first_index(
    s: Seq<usize>,
    x: usize,
    f: spec_fn(usize) -> usize,
    g: spec_fn(usize) -> usize,
    n: nat,
)
    requires
        renumbering(f, g, n),
        x < n,
        forall|p: int| 0 <= p < s.len() ==> #[trigger] s[p] < n,
    ensures
        first_index(s.map_values(f), f(x)) == first_index(s, x),
        0 <= first_index(s, x) <= s.len(),
    decreases s.len(),
{
    if s.len() > 0 {
        assert(s.map_values(f)[0] == f(s[0]));
        if s[0] != x {
            assert(g(f(s[0])) == s[0]);
            assert(f(s[0]) != f(x));
            assert(s.map_values(f).drop_first() =~= s.drop_first().map_values(f));
            assert forall|p: int| 0 <= p < s.drop_first().len() implies #[trigger] s.drop_first()[p]
                < n by {
                assert(s.drop_first()[p] == s[p + 1]);
            }
            lemma_renumber_first_index(s.drop_first(), x, f, g, n);
        }
    }
}

/// The walk a back edge closes moves with the renumbering.
proof fn lemma_renumber_path_cycle(
    stack: Seq<usize>,
    next: usize,
    f: spec_fn(usize) -> usize,
    g: spec_fn(usize) -> usize,
    n: nat,
)
    requires
        renumbering(f, g, n),
        next < n,
        forall|p: int| 0 <= p < stack.len() ==> #[trigger] stack[p] < n,
    ensures
        path_cycle(stack.map_values(f), f(next)) == path_cycle(stack, next).map_values(f),
        found_in_range(Some(path_cycle(stack, next)), n),
{
    lemma_renumber_first_index(stack, next, f, g, n);
    let p = first_index(stack, next);
    assert(path_cycle(stack.map_values(f), f(next)) =~= path_cycle(stack, next).map_values(f));
    let c = path_cycle(stack, next);
    assert forall|q: int| 0 <= q < c.len() implies #[trigger] c[q] < n by {
        if q < c.len() - 1 {
            assert(c[q] == stack[p + q]);
        }
    }
}

/// A visit in a renumbered graph is the renumbered visit.
proof fn lemma_renumber_visit(
    ids1: Seq<Seq<char>>,
    deps1: Seq<DependencyView>,
    ids2: Seq<Seq<char>>,
    deps2: Seq<DependencyView>,
    f: spec_fn(usize) -> usize,
    g: spec_fn(usize) -> usize,
    n: nat,
    order: Seq<usize>,
    cur: usize,
    st: DfsState,
)
    requires
        renumbered_graph(ids1, deps1, ids2, deps2, f, g, n),
        is_node_order(order, n as int),
        cur < n,
        state_in_range(st, n),
    ensures
        state_in_range(dfs_visit(ids1, deps1, order, cur, st).0, n),
        found_in_range(dfs_visit(ids1, deps1, order, cur, st).1, n),
        dfs_visit(ids1, deps1, order, cur, st).1 is None ==> dfs_visit(
            ids1,
            deps1,
            order,
            cur,
            st,
        ).0.stack.len() >= st.stack.len(),
        dfs_visit(ids2, deps2, order.map_values(f), f(cur), renumber_state(st, f, g)) == (
            renumber_state(dfs_visit(ids1, deps1, order, cur, st).0, f, g),
            renumber_found(dfs_visit(ids1, deps1, order, cur, st).1, f),
        ),
    decreases count_unvisited(st.color), 1nat, 0int,
{
    let st2 = renumber_state(st, f, g);
    assert(g(f(cur)) == cur);
    assert(st2.color[f(cur) as int] == st.color[cur as int]);
    if st.color[cur as int] == VisitState::Unvisited {
        let entered = DfsState {
            color: st.color.update(cur as int, VisitState::Visiting),
            stack: st.stack.push(cur),
            finished: st.finished,
        };
        let entered2 = DfsState {
            color: st2.color.update(f(cur) as int, VisitState::Visiting),
            stack: st2.stack.push(f(cur)),
            finished: st2.finished,
        };
        lemma_renumber_update(st.color, f, g, n, cur, VisitState::Visiting);
        assert(renumber_state(entered, f, g) =~= entered2);
        lemma_renumber_count(st.color, f, g, n);
        assert forall|p: int| 0 <= p < entered.stack.len() implies #[trigger] entered.stack[p] < n by {
            if p < st.stack.len() {
                assert(entered.stack[p] == st.stack[p]);
            }
        }
        lemma_renumber_scan(
            ids1,
            deps1,
            ids2,
            deps2,
            f,
            g,
            n,
            order,
            cur,
            0,
            entered,
            count_unvisited(st.color),
        );
    }
}

/// The rest of a visit in a renumbered graph is the renumbered rest.
proof fn lemma_renumber_scan(
    ids1: Seq<Seq<char>>,
    deps1: Seq<DependencyView>,
    ids2: Seq<Seq<char>>,
    deps2: Seq<DependencyView>,
    f: spec_fn(usize) -> usize,
    g: spec_fn(usize) -> usize,
    n: nat,
    order: Seq<usize>,
    cur: usize,
    k: int,
    st: DfsState,
    bound: nat,
)
    requires
        renumbered_graph(ids1, deps1, ids2, deps2, f, g, n),
        is_node_order(order, n as int),
        cur < n,
        state_in_range(st, n),
        st.stack.len() > 0,
    ensures
        state_in_range(dfs_scan(ids1, deps1, order, cur, k, st, bound).0, n),
        found_in_range(dfs_scan(ids1, deps1, order, cur, k, st, bound).1, n),
        dfs_scan(ids1, deps1, order, cur, k, st, bound).1 is None ==> dfs_scan(
            ids1,
            deps1,
            order,
            cur,
            k,
            st,
            bound,
        ).0.stack.len() >= st.stack.len() - 1,
        dfs_scan(ids2, deps2, order.map_values(f), f(cur), k, renumber_state(st, f, g), bound) == (
            renumber_state(dfs_scan(ids1, deps1, order, cur, k, st, bound).0, f, g),
            renumber_found(dfs_scan(ids1, deps1, order, cur, k, st, bound).1, f),
        ),
    decreases bound, 0nat, order.len() - k,
{
    let order2 = order.map_values(f);
    let st2 = renumber_state(st, f, g);
    if k < 0 || k >= order.len() {
        let done = DfsState {
            color: st.color.update(cur as int, VisitState::Visited),
            stack: st.stack.drop_last(),
            finished: st.finished.push(cur),
        };
        let done2 = DfsState {
            color: st2.color.update(f(cur) as int, VisitState::Visited),
            stack: st2.stack.drop_last(),
            finished: st2.finished.push(f(cur)),
        };
        lemma_renumber_update(st.color, f, g, n, cur, VisitState::Visited);
        assert(renumber_state(done, f, g) =~= done2);
        assert forall|p: int| 0 <= p < done.stack.len() implies #[trigger] done.stack[p] < n by {
            assert(done.stack[p] == st.stack[p]);
        }
        assert forall|p: int| 0 <= p < done.finished.len() implies #[trigger] done.finished[p] < n by {
            if p < st.finished.len() {
                assert(done.finished[p] == st.finished[p]);
            }
        }
    } else {
        let next = order[k];
        assert(next < n);
        assert(order2[k] == f(next));
        assert(g(f(next)) == next);
        assert(st2.color[f(next) as int] == st.color[next as int]);
        assert(ids2[f(cur) as int] == ids1[cur as int]);
        assert(ids2[f(next) as int] == ids1[next as int]);
        assert(index_edge(ids2, deps2, f(cur) as int, f(next) as int) == index_edge(
            ids1,
            deps1,
            cur as int,
            next as int,
        ));
        if index_edge(ids1, deps1, cur as int, next as int) {
            if st.color[next as int] == VisitState::Unvisited {
                lemma_renumber_count(st.color, f, g, n);
                if count_unvisited(st.color) < bound {
                    lemma_renumber_visit(ids1, deps1, ids2, deps2, f, g, n, order, next, st);
                    let (after, found) = dfs_visit(ids1, deps1, order, next, st);
                    if found is None {
                        lemma_renumber_scan(
                            ids1,
                            deps1,
                            ids2,
                            deps2,
                            f,
                            g,
                            n,
                            order,
                            cur,
                            k + 1,
                            after,
                            bound,
                        );
                    }
                }
            } else if st.color[next as int] == VisitState::Visiting {
                lemma_renumber_path_cycle(st.stack, next, f, g, n);
            } else {
                lemma_renumber_scan(ids1, deps1, ids2, deps2, f, g, n, order, cur, k + 1, st, bound);
            }
        } else {
            lemma_renumber_scan(ids1, deps1, ids2, deps2, f, g, n, order, cur, k + 1, st, bound);
        }
    }
}

/// A traversal over renumbered roots reports the renumbered walk.
proof fn lemma_renumber_roots(
    ids1: Seq<Seq<char>>,
    deps1: Seq<DependencyView>,
    ids2: Seq<Seq<char>>,
    deps2: Seq<DependencyView>,
    f: spec_fn(usize) -> usize,
    g: spec_fn(usize) -> usize,
    n: nat,
    order: Seq<usize>,
    k: int,
    st: DfsState,
)
    requires
        renumbered_graph(ids1, deps1, ids2, deps2, f, g, n),
        is_node_order(order, n as int),
        state_in_range(st, n),
    ensures
        found_in_range(dfs_roots(ids1, deps1, order, k, st), n),
        dfs_roots(ids2, deps2, order.map_values(f), k, renumber_state(st, f, g)) == renumber_found(
            dfs_roots(ids1, deps1, order, k, st),
            f,
        ),
    decreases order.len() - k,
{
    if 0 <= k < order.len() {
        let start = order[k];
        assert(start < n);
        assert(order.map_values(f)[k] == f(start));
        assert(g(f(start)) == start);
        assert(renumber_state(st, f, g).color[f(start) as int] == st.color[start as int]);
        if st.color[start as int] == VisitState::Unvisited {
            lemma_renumber_visit(ids1, deps1, ids2, deps2, f, g, n, order, start, st);
            let (after, found) = dfs_visit(ids1, deps1, order, start, st);
            if found is None {
                lemma_renumber_roots(ids1, deps1, ids2, deps2, f, g, n, order, k + 1, after);
            }
        } else {
            lemma_renumber_roots(ids1, deps1, ids2, deps2, f, g, n, order, k + 1, st);
        }
    }
}

/// Node positions ordered by identity, ties broken by position.
spec fn position_leq(ids: Seq<Seq<char>>) -> spec_fn(usize, usize) -> bool {
    |a: usize, b: usize|
        seq_lt(ids[a as int], ids[b as int]) || (ids[a as int] == ids[b as int] && a <= b)
}

/// Ordering positions by identity, then by position, is a total order.
proof fn lemma_position_leq_total(ids: Seq<Seq<char>>)
    ensures
        total_ordering(position_leq(ids)),
{
    let r = position_leq(ids);
    assert forall|x: usize| #[trigger] r(x, x) by {}
    assert forall|x: usize, y: usize| #[trigger] r(x, y) && #[trigger] r(y, x) implies x == y by {
        let a = ids[x as int];
        let b = ids[y as int];
        lemma_seq_lt_irreflexive(a);
        if seq_lt(a, b) {
            lemma_seq_lt_asymmetric(a, b);
        }
        if seq_lt(b, a) {
            lemma_seq_lt_asymmetric(b, a);
        }
    }
    assert forall|x: usize, y: usize, z: usize| #[trigger] r(x, y) && #[trigger] r(y, z) implies r(
        x,
        z,
    ) by {
        let a = ids[x as int];
        let b = ids[y as int];
        let c = ids[z as int];
        if seq_lt(a, b) && seq_lt(b, c) {
            lemma_seq_lt_transitive(a, b, c);
        }
    }
    assert forall|x: usize, y: usize| #[trigger] r(x, y) || #[trigger] r(y, x) by {
        if ids[x as int] != ids[y as int] {
            lemma_seq_lt_total(ids[x as int], ids[y as int]);
        }
    }
}

/// Node identities without repeats can be listed in strictly increasing
/// order.
proof fn lemma_identity_order_exists(ids: Seq<Seq<char>>)
    requires
        ids.no_duplicates(),
        ids.len() <= usize::MAX,
    ensures
        exists|o: Seq<usize>| identity_order(ids, o),
{
    broadcast use vstd::multiset::group_multiset_axioms;

    let n = ids.len();
    let positions = Seq::new(n, |i: int| i as usize);
    let leq = position_leq(ids);
    lemma_position_leq_total(ids);
    positions.lemma_sort_by_ensures(leq);
    let sorted = positions.sort_by(leq);
    assert(positions.to_multiset() == sorted.to_multiset());
    positions.lemma_multiset_has_no_duplicates();
    sorted.lemma_multiset_has_no_duplicates_conv();
    to_multiset_len(positions);
    to_multiset_len(sorted);
    assert forall|v: usize| v < n implies #[trigger] sorted.contains(v) by {
        assert(positions[v as int] == v);
        to_multiset_contains(positions, v);
        to_multiset_contains(sorted, v);
    }
    assert forall|p: int| 0 <= p < sorted.len() implies #[trigger] sorted[p] < n by {
        assert(sorted.contains(sorted[p]));
        to_multiset_contains(sorted, sorted[p]);
        to_multiset_contains(positions, sorted[p]);
    }
    assert forall|p: int, q: int| 0 <= p < q < sorted.len() implies !seq_lt(
        ids[#[trigger] sorted[q] as int],
        ids[#[trigger] sorted[p] as int],
    ) by {
        assert(leq(sorted[p], sorted[q]));
        let a = ids[sorted[p] as int];
        let b = ids[sorted[q] as int];
        lemma_seq_lt_irreflexive(a);
        if seq_lt(a, b) {
            lemma_seq_lt_asymmetric(a, b);
        }
    }
    lemma_sorted_order_is_identity_order(ids, sorted);
}

/// Cycle detection does not depend on the order in which nodes and
/// dependencies were added: two plans with the same distinct node
/// identities, whose node-to-node dependencies relate the same identities,
/// report the same cycle, or both none.
pub proof fn lemma_reported_cycle_ignores_insertion_order(
    nodes1: Seq<PlanNodeView>,
    deps1: Seq<DependencyView>,
    nodes2: Seq<PlanNodeView>,
    deps2: Seq<DependencyView>,
)
    requires
        node_ids(nodes1).no_duplicates(),
        node_ids(nodes2).no_duplicates(),
        node_ids(nodes1).to_set() == node_ids(nodes2).to_set(),
        nodes1.len() <= usize::MAX,
        forall|a: Seq<char>, b: Seq<char>|
            #![trigger has_edge(deps1, a, b)]
            #![trigger has_edge(deps2, a, b)]
            has_edge(deps1, a, b) == has_edge(deps2, a, b),
    ensures
        reported_cycle(nodes1, deps1) == reported_cycle(nodes2, deps2),
{
    let ids1 = node_ids(nodes1);
    let ids2 = node_ids(nodes2);
    ids1.unique_seq_to_set();
    ids2.unique_seq_to_set();
    let n = ids1.len();
    assert(ids2.len() == n);
    let f = |v: usize| choose|w: usize| (w as int) < n && ids2[w as int] == ids1[v as int];
    let g = |w: usize| choose|v: usize| (v as int) < n && ids1[v as int] == ids2[w as int];
    assert forall|v: usize| v < n implies #[trigger] f(v) < n && ids2[f(v) as int] == ids1[v
        as int] by {
        assert(ids1.to_set().contains(ids1[v as int]));
        assert(ids2.to_set().contains(ids1[v as int]));
        let i = choose|i: int| 0 <= i < ids2.len() && ids2[i] == ids1[v as int];
        assert(ids2[(i as usize) as int] == ids1[v as int]);
    }
    assert forall|w: usize| w < n implies #[trigger] g(w) < n && ids1[g(w) as int] == ids2[w
        as int] by {
        assert(ids2.to_set().contains(ids2[w as int]));
        assert(ids1.to_set().contains(ids2[w as int]));
        let i = choose|i: int| 0 <= i < ids1.len() && ids1[i] == ids2[w as int];
        assert(ids1[(i as usize) as int] == ids2[w as int]);
    }
    assert forall|v: usize| v < n implies #[trigger] f(v) < n && g(f(v)) == v by {
        assert(ids1[g(f(v)) as int] == ids2[f(v) as int]);
    }
    assert forall|w: usize| w < n implies #[trigger] g(w) < n && f(g(w)) == w by {
        assert(ids2[f(g(w)) as int] == ids1[g(w) as int]);
    }
    assert(renumbered_graph(ids1, deps1, ids2, deps2, f, g, n));
    lemma_identity_order_exists(ids1);
    let o1 = choose|o: Seq<usize>| identity_order(ids1, o);
    let o2 = o1.map_values(f);
    assert forall|p: int, q: int| 0 <= p < o2.len() && 0 <= q < o2.len() && p != q implies o2[p]
        != o2[q] by {
        assert(g(f(o1[p])) == o1[p]);
        assert(g(f(o1[q])) == o1[q]);
    }
    assert forall|w: usize| w < n implies #[trigger] o2.contains(w) by {
        assert(o1.contains(g(w)));
        let i = choose|i: int| 0 <= i < o1.len() && o1[i] == g(w);
        assert(o2[i] == w);
    }
    assert forall|p: int, q: int| 0 <= p < q < o2.len() implies seq_lt(
        ids2[#[trigger] o2[p] as int],
        ids2[#[trigger] o2[q] as int],
    ) by {
        assert(seq_lt(ids1[o1[p] as int], ids1[o1[q] as int]));
    }
    assert(identity_order(ids2, o2));
    lemma_identity_order_unique(ids2, o2);
    assert(renumber_state(initial_state(n), f, g) =~= initial_state(n));
    lemma_renumber_roots(ids1, deps1, ids2, deps2, f, g, n, o1, 0, initial_state(n));
    match dfs_roots(ids1, deps1, o1, 0, initial_state(n)) {
        Some(c) => {
            assert(c.map_values(f).map_values(|v: usize| ids2[v as int]) =~= c.map_values(
                |v: usize| ids1[v as int],
            ));
        },
        None => {},
    }
}

/// When every node has finished, no closed walk exists: each edge leads to
/// a node that finished strictly earlier.
proof fn lemma_finished_graph_acyclic(
    ids: Seq<Seq<char>>,
    nodes: Seq<PlanNodeView>,
    deps: Seq<DependencyView>,
    finished: Seq<usize>,
    c: Seq<Seq<char>>,
)
    requires
        ids == node_ids(nodes),
        ids.len() <= usize::MAX,
        forall|j: int| 0 <= j < deps.len() ==> !dependency_faulty(nodes, #[trigger] deps[j]),
        finished.no_duplicates(),
        forall|p: int| 0 <= p < finished.len() ==> #[trigger] finished[p] < ids.len(),
        forall|v: usize| v < ids.len() ==> #[trigger] finished.contains(v),
        forall|p: int, w: int|
            #![trigger finished[p], index_edge(ids, deps, finished[p] as int, w)]
            0 <= p < finished.len() && 0 <= w < ids.len() && index_edge(ids, deps, finished[p] as int, w)
                ==> exists|q: int| 0 <= q < p && #[trigger] finished[q] == w,
    ensures
        !is_cycle(deps, c),
{
    if is_cycle(deps, c) {
        let node_of = |x: Seq<char>| choose|i: int| 0 <= i < ids.len() && ids[i] == x;
        let pos_of = |v: int| choose|p: int| 0 <= p < finished.len() && finished[p] == v;
        let rank = |x: Seq<char>| pos_of(node_of(x));
        assert forall|k: int| 0 <= k < c.len() - 1 implies {
            &&& 0 <= node_of(c[k]) < ids.len()
            &&& ids[node_of(c[k])] == c[k]
            &&& 0 <= node_of(c[k + 1]) < ids.len()
            &&& ids[node_of(c[k + 1])] == c[k + 1]
            &&& #[trigger] rank(c[k + 1]) < rank(c[k])
        } by {
            assert(has_edge(deps, c[k], c[k + 1]));
            let e = choose|i: int|
                0 <= i < deps.len() && (#[trigger] deps[i]).source == c[k] && deps[i].target
                    == DependencyTargetView::Node(c[k + 1]);
            assert(!dependency_faulty(nodes, deps[e]));
            assert(has_node(nodes, c[k]));
            assert(has_node(nodes, c[k + 1]));
            let a = choose|i: int| 0 <= i < nodes.len() && (#[trigger] nodes[i]).node_id == c[k];
            let b = choose|i: int| 0 <= i < nodes.len() && (#[trigger] nodes[i]).node_id == c[k + 1];
            assert(ids[a] == c[k]);
            assert(ids[b] == c[k + 1]);
            let ia = node_of(c[k]);
            let ib = node_of(c[k + 1]);
            assert(index_edge(ids, deps, ia, ib));
            assert(0 <= ia < ids.len() && 0 <= ib < ids.len());
            assert(finished.contains(ia as usize));
            assert(finished.contains(ib as usize));
            let wa = choose|i: int| 0 <= i < finished.len() && finished[i] == ia as usize;
            assert(finished[wa] == ia);
            let wb = choose|i: int| 0 <= i < finished.len() && finished[i] == ib as usize;
            assert(finished[wb] == ib);
            let pa = pos_of(ia);
            let pb = pos_of(ib);
            assert(finished[pa] == ia);
            assert(index_edge(ids, deps, finished[pa] as int, ib));
            let q = choose|q: int| 0 <= q < pa && #[trigger] finished[q] == ib;
            assert(finished[pb] == ib);
            assert(q == pb);
        }
        assert forall|k: int| 1 <= k < c.len() implies #[trigger] rank(c[k]) < rank(c[0]) by {
            lemma_rank_decreases(c, rank, k);
        }
        assert(rank(c[c.len() - 1]) < rank(c[0]));
    }
}

proof fn lemma_rank_decreases(c: Seq<Seq<char>>, rank: spec_fn(Seq<char>) -> int, k: int)
    requires
        1 <= k < c.len(),
        forall|j: int| 0 <= j < c.len() - 1 ==> #[trigger] rank(c[j + 1]) < rank(c[j]),
    ensures
        rank(c[k]) < rank(c[0]),
    decreases k,
{
    let j = k - 1;
    assert(rank(c[j + 1]) < rank(c[j]));
    if k > 1 {
        lemma_rank_decreases(c, rank, k - 1);
    }
}

impl Plan {
    /// Whether some dependency leads from node `i` to the concrete node `j`.
    fn has_index_edge(&self, i: usize, j: usize) -> (r: bool)
        requires
            i < self.nodes@.len(),
            j < self.nodes@.len(),
        ensures
            r == index_edge(node_ids(self@.nodes), self@.dependencies, i as int, j as int),
    {
        let ghost ids = node_ids(self@.nodes);
        let ghost deps = self@.dependencies;
        let source = &self.nodes[i].node_id;
        let target = &self.nodes[j].node_id;
        proof {
            assert(ids[i as int] == source@);
            assert(ids[j as int] == target@);
        }
        let mut k: usize = 0;
        while k < self.dependencies.len()
            invariant
                ids == node_ids(self@.nodes),
                deps == self@.dependencies,
                ids[i as int] == source@,
                ids[j as int] == target@,
                k <= deps.len(),
                forall|q: int|
                    0 <= q < k ==> !((#[trigger] deps[q]).source == source@ && deps[q].target
                        == DependencyTargetView::Node(target@)),
            decreases deps.len() - k,
        {
            let dependency = &self.dependencies[k];
            proof {
                assert(deps[k as int] == dependency@);
            }
            if dependency.source().same_as(source) {
                match dependency.target() {
                    DependencyTarget::Node(t) => {
                        if t.same_as(target) {
                            return true;
                        }
                    },
                    DependencyTarget::Capability(_) => {},
                }
            }
            k = k + 1;
        }
        false
    }

    /// Node positions in identity order.
    fn sorted_node_order(&self) -> (r: Vec<usize>)
        ensures
            is_node_order(r@, self@.nodes.len() as int),
            forall|p: int, q: int|
                0 <= p < q < r@.len() ==> !seq_lt(
                    node_ids(self@.nodes)[#[trigger] r@[q] as int],
                    node_ids(self@.nodes)[#[trigger] r@[p] as int],
                ),
    {
        let ghost ids = node_ids(self@.nodes);
        let n = self.nodes.len();
        let mut order: Vec<usize> = Vec::new();
        let mut k: usize = 0;
        while k < n
            invariant
                n == self.nodes@.len(),
                ids == node_ids(self@.nodes),
                k <= n,
                order@.len() == k,
                order@.no_duplicates(),
                forall|p: int| 0 <= p < order@.len() ==> #[trigger] order@[p] < k,
                forall|v: usize| v < k ==> #[trigger] order@.contains(v),
                forall|p: int, q: int|
                    0 <= p < q < order@.len() ==> !seq_lt(
                        ids[#[trigger] order@[q] as int],
                        ids[#[trigger] order@[p] as int],
                    ),
            decreases n - k,
        {
            let id = &self.nodes[k].node_id;
            proof {
                assert(ids[k as int] == id@);
            }
            let mut p: usize = 0;
            while p < order.len() && !id.precedes(&self.nodes[order[p]].node_id)
                invariant
                    n == self.nodes@.len(),
                    ids == node_ids(self@.nodes),
                    k < n,
                    ids[k as int] == id@,
                    p <= order@.len(),
                    forall|q: int| 0 <= q < order@.len() ==> #[trigger] order@[q] < k,
                    forall|q: int| 0 <= q < p ==> !seq_lt(id@, ids[#[trigger] order@[q] as int]),
                decreases order@.len() - p,
            {
                proof {
                    assert(ids[order@[p as int] as int] == self.nodes@[order@[p as int] as int]@.node_id);
                }
                p = p + 1;
            }
            let ghost before = order@;
            proof {
                if p < order@.len() {
                    assert(ids[order@[p as int] as int] == self.nodes@[order@[p as int] as int]@.node_id);
                    assert(seq_lt(id@, ids[before[p as int] as int]));
                }
            }
            order.insert(p, k);
            proof {
                let after = order@;
                assert(after =~= before.insert(p as int, k));
                assert forall|a: int, b: int| 0 <= a < b < after.len() implies !seq_lt(
                    ids[#[trigger] after[b] as int],
                    ids[#[trigger] after[a] as int],
                ) by {
                    if b < p {
                        assert(after[a] == before[a] && after[b] == before[b]);
                    } else if b == p {
                        assert(after[a] == before[a]);
                    } else if a < p {
                        assert(after[a] == before[a] && after[b] == before[b - 1]);
                    } else if a == p {
                        assert(after[b] == before[b - 1]);
                        if seq_lt(ids[before[b - 1] as int], id@) {
                            if b - 1 == p {
                                lemma_seq_lt_asymmetric(id@, ids[before[p as int] as int]);
                            } else {
                                lemma_seq_lt_transitive(
                                    ids[before[b - 1] as int],
                                    id@,
                                    ids[before[p as int] as int],
                                );
                            }
                        }
                    } else {
                        assert(after[a] == before[a - 1] && after[b] == before[b - 1]);
                    }
                }
                assert forall|v: usize| v < k + 1 implies #[trigger] after.contains(v) by {
                    if v == k {
                        assert(after[p as int] == k);
                    } else {
                        assert(before.contains(v));
                        let w = choose|w: int| 0 <= w < before.len() && before[w] == v;
                        if w < p {
                            assert(after[w] == v);
                        } else {
                            assert(after[w + 1] == v);
                        }
                    }
                }
                assert forall|x: int, y: int| 0 <= x < after.len() && 0 <= y < after.len() && x != y
                    implies after[x] != after[y] by {
                    if x == p {
                        assert(after[y] < k) by {
                            if y < p {
                                assert(after[y] == before[y]);
                            } else {
                                assert(after[y] == before[y - 1]);
                            }
                        }
                    } else if y == p {
                        assert(after[x] < k) by {
                            if x < p {
                                assert(after[x] == before[x]);
                            } else {
                                assert(after[x] == before[x - 1]);
                            }
                        }
                    } else {
                        let xb = if x < p { x } else { x - 1 };
                        let yb = if y < p { y } else { y - 1 };
                        assert(after[x] == before[xb]);
                        assert(after[y] == before[yb]);
                    }
                }
                assert forall|q: int| 0 <= q < after.len() implies #[trigger] after[q] < k + 1 by {
                    if q < p {
                        assert(after[q] == before[q]);
                    } else if q > p {
                        assert(after[q] == before[q - 1]);
                    }
                }
            }
            k = k + 1;
        }
        order
    }
}

impl Plan {
    /// The closed walk from `next` along the current path back to `next`.
    #[verifier::spinoff_prover]
    #[verifier::rlimit(60)]
    fn cycle_through(&self, stack: &Vec<usize>, next: usize) -> (r: Vec<NodeId>)
        requires
            node_ids(self@.nodes).no_duplicates(),
            stack@.no_duplicates(),
            stack@.len() > 0,
            forall|p: int| 0 <= p < stack@.len() ==> #[trigger] stack@[p] < self@.nodes.len(),
            forall|p: int|
                0 <= p < stack@.len() - 1 ==> index_edge(
                    node_ids(self@.nodes),
                    self@.dependencies,
                    #[trigger] stack@[p] as int,
                    stack@[p + 1] as int,
                ),
            index_edge(
                node_ids(self@.nodes),
                self@.dependencies,
                stack@[stack@.len() - 1] as int,
                next as int,
            ),
            stack@.contains(next),
        ensures
            is_simple_cycle(self@.dependencies, id_views(r@)),
            id_views(r@) == path_cycle(stack@, next).map_values(
                |v: usize| node_ids(self@.nodes)[v as int],
            ),
    {
        let ghost ids = node_ids(self@.nodes);
        let ghost deps = self@.dependencies;
        let len = stack.len();
        let mut p: usize = 0;
        while stack[p] != next
            invariant
                len == stack@.len(),
                p < len,
                forall|q: int| 0 <= q < p ==> stack@[q] != next,
                stack@.contains(next),
            decreases len - p,
        {
            proof {
                let w = choose|w: int| 0 <= w < len && stack@[w] == next;
                assert(w != p);
                if w < p {
                    assert(stack@[w] != next);
                }
            }
            p = p + 1;
        }
        let mut cycle: Vec<NodeId> = Vec::new();
        let mut q: usize = p;
        while q < len
            invariant
                len == stack@.len(),
                p <= q <= len,
                forall|t: int| 0 <= t < stack@.len() ==> #[trigger] stack@[t] < self@.nodes.len(),
                ids == node_ids(self@.nodes),
                id_views(cycle@) =~= Seq::new((q - p) as nat, |t: int| ids[stack@[p + t] as int]),
            decreases len - q,
        {
            let id = self.nodes[stack[q]].node_id.clone();
            proof {
                assert(id@ == ids[stack@[q as int] as int]);
            }
            let ghost before = id_views(cycle@);
            cycle.push(id);
            proof {
                assert(id_views(cycle@) =~= before.push(id@));
            }
            q = q + 1;
        }
        let closing = self.nodes[next].node_id.clone();
        let ghost path = id_views(cycle@);
        cycle.push(closing);
        proof {
            lemma_first_index(stack@, next, p as int);
            let c = id_views(cycle@);
            lemma_path_cycle_ids(stack@, next, p as int, ids, path);
            assert(c =~= path.push(ids[next as int]));
            assert(stack@[p as int] == next);
            assert(c[0] == c[c.len() - 1]);
            assert forall|t: int| 0 <= t < c.len() - 1 implies has_edge(deps, #[trigger] c[t], c[t + 1]) by {
                if t < c.len() - 2 {
                    assert(index_edge(ids, deps, stack@[p + t] as int, stack@[p + t + 1] as int));
                } else {
                    assert(c[t] == ids[stack@[len - 1] as int]);
                }
            }
            assert(c.drop_last() =~= path);
            assert forall|x: int, y: int| 0 <= x < path.len() && 0 <= y < path.len() && x != y
                implies path[x] != path[y] by {
                assert(stack@[p + x] != stack@[p + y]);
                assert(ids[stack@[p + x] as int] != ids[stack@[p + y] as int]);
            }
        }
        cycle
    }
}

/// The traversal's finished list only grows at its end.
spec fn extends(longer: Seq<usize>, shorter: Seq<usize>) -> bool {
    shorter.len() <= longer.len() && longer.subrange(0, shorter.len() as int) == shorter
}

impl Plan {
    /// Depth-first visit of `current`: finishes every node reachable from
    /// it, or reports the first closed walk it meets.
    #[verifier::spinoff_prover]
    #[verifier::rlimit(80)]
    fn visit_for_cycle(
        &self,
        current: usize,
        order: &Vec<usize>,
        color: &mut Vec<VisitState>,
        stack: &mut Vec<usize>,
        finished: &mut Vec<usize>,
    ) -> (r: Option<Vec<NodeId>>)
        requires
            node_ids(self@.nodes).no_duplicates(),
            is_node_order(order@, self@.nodes.len() as int),
            dfs_invariant(
                node_ids(self@.nodes),
                self@.dependencies,
                old(color)@,
                old(stack)@,
                old(finished)@,
            ),
            current < self@.nodes.len(),
            old(color)@[current as int] == VisitState::Unvisited,
            old(stack)@.len() > 0 ==> index_edge(
                node_ids(self@.nodes),
                self@.dependencies,
                old(stack)@[old(stack)@.len() - 1] as int,
                current as int,
            ),
        ensures
            match r {
                None => {
                    &&& dfs_invariant(
                        node_ids(self@.nodes),
                        self@.dependencies,
                        final(color)@,
                        final(stack)@,
                        final(finished)@,
                    )
                    &&& final(stack)@ == old(stack)@
                    &&& final(color)@[current as int] == VisitState::Visited
                    &&& extends(final(finished)@, old(finished)@)
                    &&& forall|v: int|
                        0 <= v < final(color)@.len() && #[trigger] final(color)@[v]
                            == VisitState::Unvisited ==> old(color)@[v] == VisitState::Unvisited
                },
                Some(c) => is_simple_cycle(self@.dependencies, id_views(c@)),
            },
            ({
                let (st, found) = dfs_visit(
                    node_ids(self@.nodes),
                    self@.dependencies,
                    order@,
                    current,
                    DfsState { color: old(color)@, stack: old(stack)@, finished: old(finished)@ },
                );
                &&& st == DfsState {
                    color: final(color)@,
                    stack: final(stack)@,
                    finished: final(finished)@,
                }
                &&& match r {
                    None => found is None,
                    Some(c) => found matches Some(w) && id_views(c@) == w.map_values(
                        |v: usize| node_ids(self@.nodes)[v as int],
                    ),
                }
            }),
        decreases count_unvisited(color@),
    {
        let node_count = self.nodes.len();
        let ghost ids = node_ids(self@.nodes);
        let ghost deps = self@.dependencies;
        let ghost n = ids.len();
        let ghost start_color = color@;
        let ghost start_stack = stack@;
        let ghost start_finished = finished@;
        color.set(current, VisitState::Visiting);
        stack.push(current);
        proof {
            lemma_count_unvisited_mono(start_color, color@, current as int);
            assert(!start_stack.contains(current));
            assert(stack@ =~= start_stack.push(current));
            assert forall|v: int| 0 <= v < n implies ((#[trigger] color@[v] == VisitState::Visiting)
                <==> stack@.contains(v as usize)) by {
                if v == current {
                    assert(stack@[stack@.len() - 1] == current);
                } else {
                    assert(color@[v] == start_color[v]);
                    if start_stack.contains(v as usize) {
                        let w = choose|w: int| 0 <= w < start_stack.len() && start_stack[w] == v as usize;
                        assert(stack@[w] == v as usize);
                    }
                    if stack@.contains(v as usize) {
                        let w = choose|w: int| 0 <= w < stack@.len() && stack@[w] == v as usize;
                        assert(stack@[start_stack.len() as int] == current);
                        assert(v as usize != current);
                        assert(w < start_stack.len());
                        assert(start_stack[w] == v as usize);
                    }
                }
            }
            assert forall|v: int| 0 <= v < n implies ((#[trigger] color@[v] == VisitState::Visited)
                <==> finished@.contains(v as usize)) by {
                if v != current {
                    assert(color@[v] == start_color[v]);
                }
            }
            assert forall|x: int, y: int| 0 <= x < stack@.len() && 0 <= y < stack@.len() && x != y
                implies stack@[x] != stack@[y] by {
                if x == stack@.len() - 1 {
                    assert(start_stack.contains(stack@[y]));
                } else if y == stack@.len() - 1 {
                    assert(start_stack.contains(stack@[x]));
                }
            }
            assert forall|p: int| 0 <= p < stack@.len() - 1 implies index_edge(
                ids,
                deps,
                #[trigger] stack@[p] as int,
                stack@[p + 1] as int,
            ) by {
                if p < start_stack.len() - 1 {
                    assert(stack@[p] == start_stack[p] && stack@[p + 1] == start_stack[p + 1]);
                }
            }
        }
        let ghost entry_color = color@;
        let ghost whole = dfs_visit(
            ids,
            deps,
            order@,
            current,
            DfsState { color: start_color, stack: start_stack, finished: start_finished },
        );
        let ghost bound = count_unvisited(start_color);
        let mut k: usize = 0;
        proof {
            assert(finished@.subrange(0, start_finished.len() as int) =~= start_finished);
            assert(DfsState { color: color@, stack: stack@, finished: finished@ } =~= DfsState {
                color: start_color.update(current as int, VisitState::Visiting),
                stack: start_stack.push(current),
                finished: start_finished,
            });
        }
        while k < order.len()
            invariant
                ids == node_ids(self@.nodes),
                deps == self@.dependencies,
                n == ids.len(),
                ids.no_duplicates(),
                is_node_order(order@, n as int),
                current < n,
                dfs_invariant(ids, deps, color@, stack@, finished@),
                stack@ == start_stack.push(current),
                extends(finished@, start_finished),
                entry_color.len() == n,
                count_unvisited(entry_color) < count_unvisited(start_color),
                start_color == old(color)@,
                start_color.len() == n,
                forall|v: int|
                    0 <= v < n && #[trigger] color@[v] == VisitState::Unvisited ==> entry_color[v]
                        == VisitState::Unvisited,
                forall|v: int|
                    0 <= v < n && #[trigger] entry_color[v] == VisitState::Unvisited ==> start_color[v]
                        == VisitState::Unvisited,
                k <= order@.len(),
                forall|q: int|
                    0 <= q < k && index_edge(ids, deps, current as int, #[trigger] order@[q] as int)
                        ==> finished@.contains(order@[q]),
                bound == count_unvisited(start_color),
                start_stack == old(stack)@,
                start_finished == old(finished)@,
                whole == dfs_visit(
                    ids,
                    deps,
                    order@,
                    current,
                    DfsState { color: start_color, stack: start_stack, finished: start_finished },
                ),
                dfs_scan(
                    ids,
                    deps,
                    order@,
                    current,
                    k as int,
                    DfsState { color: color@, stack: stack@, finished: finished@ },
                    bound,
                ) == whole,
            decreases order@.len() - k,
        {
            let next = order[k];
            if self.has_index_edge(current, next) {
                match color[next] {
                    VisitState::Unvisited => {
                        proof {
                            lemma_count_unvisited_mono(entry_color, color@, -1);
                            assert(stack@[stack@.len() - 1] == current);
                            assert(count_unvisited(color@) < count_unvisited(start_color));
                        }
                        let ghost before_finished = finished@;
                        let ghost before_state = DfsState {
                            color: color@,
                            stack: stack@,
                            finished: finished@,
                        };
                        match self.visit_for_cycle(next, order, color, stack, finished) {
                            Some(c) => {
                                proof {
                                    assert(next < before_state.color.len());
                                    assert(index_edge(ids, deps, current as int, next as int));
                                    assert(before_state.color[next as int] == VisitState::Unvisited);
                                    assert(count_unvisited(before_state.color) < bound);
                                    assert(dfs_scan(ids, deps, order@, current, k as int, before_state, bound)
                                        == dfs_visit(ids, deps, order@, next, before_state));
                                }
                                return Some(c);
                            },
                            None => {},
                        }
                        proof {
                            assert(finished@.contains(next)) by {
                                assert(color@[next as int] == VisitState::Visited);
                            }
                            assert forall|q: int|
                                0 <= q < k && index_edge(ids, deps, current as int, #[trigger] order@[q] as int)
                                implies finished@.contains(order@[q]) by {
                                assert(before_finished.contains(order@[q]));
                                let w = choose|w: int| 0 <= w < before_finished.len() && before_finished[w] == order@[q];
                                assert(finished@.subrange(0, before_finished.len() as int)[w] == order@[q]);
                            }
                            assert(extends(finished@, start_finished)) by {
                                assert(finished@.subrange(0, start_finished.len() as int) =~= before_finished.subrange(0, start_finished.len() as int));
                            }
                        }
                    },
                    VisitState::Visiting => {
                        proof {
                            assert(color@[next as int] == VisitState::Visiting);
                            assert(stack@.contains(next));
                            assert(stack@[stack@.len() - 1] == current);
                        }
                        let cycle = self.cycle_through(stack, next);
                        proof {
                            let st = DfsState { color: color@, stack: stack@, finished: finished@ };
                            assert(next < st.color.len());
                            assert(index_edge(ids, deps, current as int, next as int));
                            assert(st.color[next as int] == VisitState::Visiting);
                            assert(dfs_scan(ids, deps, order@, current, k as int, st, bound) == (
                                st,
                                Some(path_cycle(stack@, next)),
                            ));
                        }
                        return Some(cycle);
                    },
                    VisitState::Visited => {
                        proof {
                            assert(color@[next as int] == VisitState::Visited);
                        }
                    },
                }
            }
            k = k + 1;
        }
        let ghost path = stack@;
        let ghost before_finished = finished@;
        let ghost pre_color = color@;
        stack.pop();
        color.set(current, VisitState::Visited);
        finished.push(current);
        proof {
            assert(DfsState { color: color@, stack: stack@, finished: finished@ } =~= DfsState {
                color: pre_color.update(current as int, VisitState::Visited),
                stack: path.drop_last(),
                finished: before_finished.push(current),
            });
            assert(stack@ =~= start_stack);
            assert(!before_finished.contains(current)) by {
                assert(path[path.len() - 1] == current);
                assert(path.contains(current));
                assert(pre_color[current as int] == VisitState::Visiting);
            }
            assert forall|v: int| 0 <= v < n implies ((#[trigger] color@[v] == VisitState::Visiting)
                <==> stack@.contains(v as usize)) by {
                if v == current {
                    assert(!start_stack.contains(current));
                } else {
                    if path.contains(v as usize) {
                        let w = choose|w: int| 0 <= w < path.len() && path[w] == v as usize;
                        assert(w < start_stack.len());
                        assert(stack@[w] == v as usize);
                    }
                    if stack@.contains(v as usize) {
                        let w = choose|w: int| 0 <= w < stack@.len() && stack@[w] == v as usize;
                        assert(path[w] == v as usize);
                    }
                }
            }
            assert forall|v: int| 0 <= v < n implies ((#[trigger] color@[v] == VisitState::Visited)
                <==> finished@.contains(v as usize)) by {
                if v == current {
                    assert(finished@[finished@.len() - 1] == current);
                } else {
                    if before_finished.contains(v as usize) {
                        let w = choose|w: int| 0 <= w < before_finished.len() && before_finished[w] == v as usize;
                        assert(finished@[w] == v as usize);
                    }
                    if finished@.contains(v as usize) {
                        let w = choose|w: int| 0 <= w < finished@.len() && finished@[w] == v as usize;
                        assert(w < before_finished.len());
                        assert(before_finished[w] == v as usize);
                    }
                }
            }
            assert forall|x: int, y: int| 0 <= x < finished@.len() && 0 <= y < finished@.len() && x != y
                implies finished@[x] != finished@[y] by {
                if x == finished@.len() - 1 {
                    assert(before_finished.contains(finished@[y]));
                } else if y == finished@.len() - 1 {
                    assert(before_finished.contains(finished@[x]));
                }
            }
            assert forall|p: int, w: int|
                #![trigger finished@[p], index_edge(ids, deps, finished@[p] as int, w)]
                0 <= p < finished@.len() && 0 <= w < n && index_edge(ids, deps, finished@[p] as int, w)
                implies exists|q: int| 0 <= q < p && #[trigger] finished@[q] == w by {
                if p == finished@.len() - 1 {
                    assert(order@.contains(w as usize));
                    let qo = choose|qo: int| 0 <= qo < order@.len() && order@[qo] == w as usize;
                    assert(before_finished.contains(order@[qo]));
                    let q = choose|q: int| 0 <= q < before_finished.len() && before_finished[q] == order@[qo];
                    assert(finished@[q] == w);
                } else {
                    assert(finished@[p] == before_finished[p]);
                    assert(index_edge(ids, deps, before_finished[p] as int, w));
                    let q = choose|q: int| 0 <= q < p && #[trigger] before_finished[q] == w;
                    assert(finished@[q] == w);
                }
            }
            assert(extends(finished@, start_finished)) by {
                assert(finished@.subrange(0, start_finished.len() as int) =~= before_finished.subrange(0, start_finished.len() as int));
            }
        }
        None
    }
}

impl Plan {
    /// Finds the first node-to-node cycle of a depth-first traversal that
    /// takes roots and successors in identity order.
    fn find_dependency_cycle(&self) -> (r: Option<Vec<NodeId>>)
        requires
            node_ids(self@.nodes).no_duplicates(),
            forall|j: int|
                0 <= j < self@.dependencies.len() ==> !dependency_faulty(
                    self@.nodes,
                    #[trigger] self@.dependencies[j],
                ),
        ensures
            match r {
                Some(c) => is_simple_cycle(self@.dependencies, id_views(c@)),
                None => acyclic(self@.dependencies),
            },
            reported_cycle(self@.nodes, self@.dependencies) == match r {
                Some(c) => Some(id_views(c@)),
                None => None::<Seq<Seq<char>>>,
            },
    {
        let ghost ids = node_ids(self@.nodes);
        let ghost deps = self@.dependencies;
        let n = self.nodes.len();
        let order = self.sorted_node_order();
        proof {
            lemma_sorted_order_is_identity_order(ids, order@);
            lemma_identity_order_unique(ids, order@);
        }
        let mut color: Vec<VisitState> = Vec::new();
        let mut i: usize = 0;
        while i < n
            invariant
                i <= n,
                color@.len() == i,
                forall|v: int| 0 <= v < i ==> #[trigger] color@[v] == VisitState::Unvisited,
            decreases n - i,
        {
            color.push(VisitState::Unvisited);
            i = i + 1;
        }
        let mut stack: Vec<usize> = Vec::new();
        let mut finished: Vec<usize> = Vec::new();
        proof {
            assert(dfs_invariant(ids, deps, color@, stack@, finished@));
            assert(DfsState { color: color@, stack: stack@, finished: finished@ } =~= initial_state(
                n as nat,
            ));
        }
        let ghost whole = dfs_roots(ids, deps, order@, 0, initial_state(n as nat));
        let mut k: usize = 0;
        while k < n
            invariant
                n == self.nodes@.len(),
                ids == node_ids(self@.nodes),
                deps == self@.dependencies,
                ids.no_duplicates(),
                is_node_order(order@, n as int),
                dfs_invariant(ids, deps, color@, stack@, finished@),
                stack@.len() == 0,
                k <= n,
                forall|q: int| 0 <= q < k ==> finished@.contains(#[trigger] order@[q]),
                whole == dfs_roots(ids, deps, order@, 0, initial_state(n as nat)),
                (choose|o: Seq<usize>| identity_order(ids, o)) == order@,
                dfs_roots(
                    ids,
                    deps,
                    order@,
                    k as int,
                    DfsState { color: color@, stack: stack@, finished: finished@ },
                ) == whole,
            decreases n - k,
        {
            let start = order[k];
            let ghost before_state = DfsState { color: color@, stack: stack@, finished: finished@ };
            match color[start] {
                VisitState::Unvisited => {
                    let ghost before_finished = finished@;
                    match self.visit_for_cycle(start, &order, &mut color, &mut stack, &mut finished) {
                        Some(c) => {
                            proof {
                                assert(start < before_state.color.len());
                                assert(before_state.color[start as int] == VisitState::Unvisited);
                                let (after, found) = dfs_visit(ids, deps, order@, start, before_state);
                                assert(dfs_roots(ids, deps, order@, k as int, before_state) == found);
                            }
                            return Some(c);
                        },
                        None => {},
                    }
                    proof {
                        assert(color@[start as int] == VisitState::Visited);
                        assert forall|q: int| 0 <= q < k implies finished@.contains(#[trigger] order@[q]) by {
                            assert(before_finished.contains(order@[q]));
                            let w = choose|w: int| 0 <= w < before_finished.len() && before_finished[w] == order@[q];
                            assert(finished@.subrange(0, before_finished.len() as int)[w] == order@[q]);
                        }
                    }
                },
                VisitState::Visiting => {
                    proof {
                        assert(color@[start as int] == VisitState::Visiting);
                        assert(!stack@.contains(start));
                    }
                },
                VisitState::Visited => {
                    proof {
                        assert(color@[start as int] == VisitState::Visited);
                    }
                },
            }
            k = k + 1;
        }
        proof {
            assert forall|v: usize| v < ids.len() implies #[trigger] finished@.contains(v) by {
                assert(order@.contains(v));
                let q = choose|q: int| 0 <= q < order@.len() && order@[q] == v;
                assert(finished@.contains(order@[q]));
            }
            assert forall|c: Seq<Seq<char>>| !#[trigger] is_cycle(deps, c) by {
                lemma_finished_graph_acyclic(ids, self@.nodes, deps, finished@, c);
            }
        }
        None
    }
}

/// The outcome `validate` owes for a plan: its first structural fault, or,
/// without one, the closed walk cycle detection reports, which exists
/// exactly when the node graph has a cycle and is a simple cycle of it.
pub open spec fn validation_outcome(
    nodes: Seq<PlanNodeView>,
    deps: Seq<DependencyView>,
    r: Result<(), PlanValidationErrorView>,
) -> bool {
    match structural_fault(nodes, deps) {
        Some(e) => r == Err::<(), PlanValidationErrorView>(e),
        None => {
            &&& r == match reported_cycle(nodes, deps) {
                Some(c) => Err(PlanValidationErrorView::DependencyCycle { nodes: c }),
                None => Ok::<(), PlanValidationErrorView>(()),
            }
            &&& (r is Ok <==> acyclic(deps))
            &&& (r matches Err(e) ==> (e matches PlanValidationErrorView::DependencyCycle { nodes: c }
                && is_simple_cycle(deps, c)))
        },
    }
}

/// The abstract outcome of a validation call.
pub open spec fn validation_view(r: Result<(), PlanValidationError>) -> Result<
    (),
    PlanValidationErrorView,
> {
    match r {
        Ok(()) => Ok(()),
        Err(e) => Err(e@),
    }
}

impl Plan {
    /// Creates a builder for the first version of a plan.
    pub fn builder(plan_id: PlanId, operation_id: OperationId) -> (r: PlanBuilder)
        ensures
            r@ == (PlanBuilderView {
                plan_id: plan_id@,
                operation_id: operation_id@,
                version: 1,
                nodes: Seq::empty(),
                dependencies: Seq::empty(),
            }),
    {
        PlanBuilder::new(plan_id, operation_id)
    }

    /// Returns the plan identity.
    pub fn plan_id(&self) -> (r: &PlanId)
        ensures
            r@ == self@.plan_id,
    {
        &self.plan_id
    }

    /// Returns the operation identity.
    pub fn operation_id(&self) -> (r: &OperationId)
        ensures
            r@ == self@.operation_id,
    {
        &self.operation_id
    }

    /// Returns this plan's version.
    pub fn version(&self) -> (r: PlanVersion)
        ensures
            r@ == self@.version,
    {
        self.version
    }

    /// Returns the current coordination state.
    pub fn state(&self) -> (r: PlanState)
        ensures
            r == self@.state,
    {
        self.state
    }

    /// Returns all global coordination nodes.
    pub fn nodes(&self) -> (r: &[PlanNode])
        ensures
            node_views(r@) == self@.nodes,
    {
        self.nodes.as_slice()
    }

    /// Returns all global dependencies.
    pub fn dependencies(&self) -> (r: &[Dependency])
        ensures
            dependency_views(r@) == self@.dependencies,
    {
        self.dependencies.as_slice()
    }

    /// Returns the first node carrying the given identity.
    pub fn node(&self, node_id: &NodeId) -> (r: Option<&PlanNode>)
        ensures
            match r {
                Some(n) => n@.node_id == node_id@ && exists|i: int|
                    0 <= i < self@.nodes.len() && self@.nodes[i] == n@ && forall|j: int|
                        0 <= j < i ==> (#[trigger] self@.nodes[j]).node_id != node_id@,
                None => !has_node(self@.nodes, node_id@),
            },
    {
        let mut k: usize = 0;
        while k < self.nodes.len()
            invariant
                k <= self@.nodes.len(),
                forall|j: int| 0 <= j < k ==> (#[trigger] self@.nodes[j]).node_id != node_id@,
            decreases self@.nodes.len() - k,
        {
            proof {
                assert(self@.nodes[k as int] == self.nodes@[k as int]@);
            }
            if self.nodes[k].node_id.same_as(node_id) {
                return Some(&self.nodes[k]);
            }
            k = k + 1;
        }
        None
    }

    /// Returns the dependencies originating from a node, in order.
    pub fn dependencies_from(&self, source: &NodeId) -> (r: Vec<Dependency>)
        ensures
            dependency_views(r@) == self@.dependencies.filter(
                |d: DependencyView| d.source == source@,
            ),
    {
        let ghost p = |d: DependencyView| d.source == source@;
        let ghost deps = self@.dependencies;
        let mut out: Vec<Dependency> = Vec::new();
        let mut k: usize = 0;
        proof {
            assert(deps.take(0).filter(p) =~= Seq::<DependencyView>::empty()) by {
                reveal(Seq::filter);
            }
        }
        while k < self.dependencies.len()
            invariant
                deps == self@.dependencies,
                p == (|d: DependencyView| d.source == source@),
                k <= deps.len(),
                dependency_views(out@) == deps.take(k as int).filter(p),
            decreases deps.len() - k,
        {
            proof {
                crate::seq_facts::lemma_filter_take_step(deps, p, k as int);
                assert(deps[k as int] == self.dependencies@[k as int]@);
            }
            if self.dependencies[k].source().same_as(source) {
                let d = self.dependencies[k].clone();
                let ghost before = dependency_views(out@);
                out.push(d);
                proof {
                    assert(dependency_views(out@) =~= before.push(d@));
                }
            }
            k = k + 1;
        }
        proof {
            crate::seq_facts::lemma_take_full(deps);
        }
        out
    }

    /// Performs complete structural validation of the plan.
    pub fn validate(&self) -> (r: Result<(), PlanValidationError>)
        ensures
            validation_outcome(self@.nodes, self@.dependencies, validation_view(r)),
    {
        let ghost nodes = self@.nodes;
        let ghost deps = self@.dependencies;
        let mut i: usize = 0;
        while i < self.nodes.len()
            invariant
                nodes == self@.nodes,
                i <= nodes.len(),
                forall|k: int| 0 <= k < i ==> !node_faulty(nodes, k),
            decreases nodes.len() - i,
        {
            let mut j: usize = 0;
            while j < i
                invariant
                    nodes == self@.nodes,
                    j <= i < nodes.len(),
                    forall|k: int| 0 <= k < i ==> !node_faulty(nodes, k),
                    forall|q: int| 0 <= q < j ==> (#[trigger] nodes[q]).node_id != nodes[i as int].node_id,
                decreases i - j,
            {
                proof {
                    assert(nodes[j as int] == self.nodes@[j as int]@);
                    assert(nodes[i as int] == self.nodes@[i as int]@);
                }
                if self.nodes[j].node_id.same_as(&self.nodes[i].node_id) {
                    proof {
                        assert(repeats_earlier(nodes, i as int));
                        assert(first_faulty_node(nodes, i as int));
                        lemma_first_faulty_node_unique(nodes, i as int);
                        assert(structural_fault(nodes, deps) == Some(node_fault(nodes, i as int)));
                    }
                    return Err(
                        PlanValidationError::DuplicateNodeId {
                            node_id: self.nodes[i].node_id.clone(),
                        },
                    );
                }
                j = j + 1;
            }
            proof {
                assert(nodes[i as int] == self.nodes@[i as int]@);
            }
            match self.nodes[i].validate() {
                Err(error) => {
                    proof {
                        assert(!repeats_earlier(nodes, i as int));
                        assert(first_faulty_node(nodes, i as int));
                        lemma_first_faulty_node_unique(nodes, i as int);
                        assert(structural_fault(nodes, deps) == Some(node_fault(nodes, i as int)));
                    }
                    return Err(
                        PlanValidationError::InvalidNode {
                            node_id: self.nodes[i].node_id.clone(),
                            error,
                        },
                    );
                },
                Ok(()) => {},
            }
            i = i + 1;
        }
        proof {
            assert forall|k: int| !first_faulty_node(nodes, k) by {
                if 0 <= k < nodes.len() {
                    assert(!node_faulty(nodes, k));
                }
            }
        }
        let mut k: usize = 0;
        while k < self.dependencies.len()
            invariant
                nodes == self@.nodes,
                deps == self@.dependencies,
                forall|q: int| 0 <= q < nodes.len() ==> !node_faulty(nodes, q),
                forall|q: int| !first_faulty_node(nodes, q),
                k <= deps.len(),
                forall|q: int| 0 <= q < k ==> !dependency_faulty(nodes, #[trigger] deps[q]),
            decreases deps.len() - k,
        {
            let dependency = &self.dependencies[k];
            proof {
                assert(deps[k as int] == dependency@);
            }
            match dependency.validate() {
                Err(error) => {
                    proof {
                        assert(first_faulty_dependency(nodes, deps, k as int));
                        lemma_first_faulty_dependency_unique(nodes, deps, k as int);
                    }
                    return Err(
                        PlanValidationError::InvalidDependency {
                            source: dependency.source().clone(),
                            error,
                        },
                    );
                },
                Ok(()) => {},
            }
            match find_node(&self.nodes, dependency.source()) {
                None => {
                    proof {
                        assert(first_faulty_dependency(nodes, deps, k as int));
                        lemma_first_faulty_dependency_unique(nodes, deps, k as int);
                    }
                    return Err(
                        PlanValidationError::MissingSourceNode {
                            node_id: dependency.source().clone(),
                        },
                    );
                },
                Some(si) => {
                    proof {
                        assert(nodes[si as int] == self.nodes@[si as int]@);
                        assert(has_node(nodes, deps[k as int].source));
                    }
                },
            }
            match dependency.target() {
                DependencyTarget::Node(target) => {
                    match find_node(&self.nodes, target) {
                        None => {
                            proof {
                                assert(first_faulty_dependency(nodes, deps, k as int));
                                lemma_first_faulty_dependency_unique(nodes, deps, k as int);
                            }
                            return Err(
                                PlanValidationError::MissingTargetNode { node_id: target.clone() },
                            );
                        },
                        Some(ti) => {
                            proof {
                                assert(nodes[ti as int] == self.nodes@[ti as int]@);
                                assert(has_node(nodes, target@));
                            }
                        },
                    }
                },
                DependencyTarget::Capability(_) => {},
            }
            proof {
                assert(!dependency_faulty(nodes, deps[k as int]));
            }
            k = k + 1;
        }
        proof {
            assert forall|q: int| !first_faulty_dependency(nodes, deps, q) by {
                if 0 <= q < deps.len() {
                    assert(!dependency_faulty(nodes, deps[q]));
                }
            }
            assert(structural_fault(nodes, deps) is None);
            let ids = node_ids(nodes);
            assert forall|x: int, y: int| 0 <= x < ids.len() && 0 <= y < ids.len() && x != y
                implies ids[x] != ids[y] by {
                if x < y {
                    assert(!node_faulty(nodes, y));
                    assert(!repeats_earlier(nodes, y));
                    assert(nodes[x].node_id != nodes[y].node_id);
                } else {
                    assert(!node_faulty(nodes, x));
                    assert(!repeats_earlier(nodes, x));
                    assert(nodes[y].node_id != nodes[x].node_id);
                }
            }
        }
        match self.find_dependency_cycle() {
            Some(cycle) => Err(PlanValidationError::DependencyCycle { nodes: cycle }),
            None => Ok(()),
        }
    }

    /// Performs a controlled coordination-state transition; nothing but the
    /// state changes, and a refused transition changes nothing.
    pub fn transition_state(&mut self, next: PlanState) -> (r: Result<(), InvalidPlanStateTransition>)
        ensures
            r is Ok <==> plan_transition_allowed(old(self)@.state, next),
            r is Ok ==> final(self)@ == (PlanView { state: next, ..old(self)@ }),
            r matches Err(e) ==> final(self)@ == old(self)@ && e == (InvalidPlanStateTransition {
                from: old(self)@.state,
                to: next,
            }),
    {
        if !self.state.can_transition_to(next) {
            return Err(InvalidPlanStateTransition { from: self.state, to: next });
        }
        self.state = next;
        Ok(())
    }
}

/// Abstract value of a plan builder.
pub struct PlanBuilderView {
    pub plan_id: Seq<char>,
    pub operation_id: Seq<char>,
    pub version: u64,
    pub nodes: Seq<PlanNodeView>,
    pub dependencies: Seq<DependencyView>,
}

/// Builder for one immutable plan version.
#[derive(Debug)]
pub struct PlanBuilder {
    plan_id: PlanId,
    operation_id: OperationId,
    version: PlanVersion,
    nodes: Vec<PlanNode>,
    dependencies: Vec<Dependency>,
}

impl View for PlanBuilder {
    type V = PlanBuilderView;

    closed spec fn view(&self) -> PlanBuilderView {
        PlanBuilderView {
            plan_id: self.plan_id@,
            operation_id: self.operation_id@,
            version: self.version@,
            nodes: node_views(self.nodes@),
            dependencies: dependency_views(self.dependencies@),
        }
    }
}

impl Clone for PlanBuilder {
    fn clone(&self) -> (r: Self)
        ensures
            r@ == self@,
    {
        PlanBuilder {
            plan_id: self.plan_id.clone(),
            operation_id: self.operation_id.clone(),
            version: self.version,
            nodes: copy_nodes(&self.nodes),
            dependencies: copy_dependencies(&self.dependencies),
        }
    }
}

/// The abstract outcome of a build.
pub enum PlanBuildErrorView {
    DuplicateNodeId { node_id: Seq<char> },
    InvalidDependency { source: Seq<char>, kind: DependencyErrorKind },
    Validation(PlanValidationErrorView),
}

/// The human-readable description of a plan build error.
pub open spec fn build_error_text(e: PlanBuildError) -> Seq<char> {
    match e {
        PlanBuildError::DuplicateNodeId { node_id } => "duplicate plan node id: "@ + node_id@,
        PlanBuildError::InvalidDependency { source, error } => "invalid dependency from "@
            + source@ + ": "@ + dependency_error_text(error),
        PlanBuildError::Validation(error) => plan_error_text(error),
    }
}

impl PlanBuildError {
    /// Human-readable description of the error.
    pub fn to_string(&self) -> (r: String)
        ensures
            r@ == build_error_text(*self),
    {
        match self {
            PlanBuildError::DuplicateNodeId { node_id } => {
                let text = "duplicate plan node id: ".to_string();
                text.concat(node_id.as_str())
            },
            PlanBuildError::InvalidDependency { source, error } => {
                let text = "invalid dependency from ".to_string();
                let text = text.concat(source.as_str());
                let text = text.concat(": ");
                let detail = error.to_string();
                text.concat(detail.as_str())
            },
            PlanBuildError::Validation(error) => error.to_string(),
        }
    }
}

impl View for PlanBuildError {
    type V = PlanBuildErrorView;

    open spec fn view(&self) -> PlanBuildErrorView {
        match self {
            PlanBuildError::DuplicateNodeId { node_id } => PlanBuildErrorView::DuplicateNodeId {
                node_id: node_id@,
            },
            PlanBuildError::InvalidDependency { source, error } =>
                PlanBuildErrorView::InvalidDependency { source: source@, kind: error_kind(*error) },
            PlanBuildError::Validation(e) => PlanBuildErrorView::Validation(e@),
        }
    }
}

impl PlanBuilder {
    /// Creates a builder for the first plan version.
    pub fn new(plan_id: PlanId, operation_id: OperationId) -> (r: PlanBuilder)
        ensures
            r@ == (PlanBuilderView {
                plan_id: plan_id@,
                operation_id: operation_id@,
                version: 1,
                nodes: Seq::empty(),
                dependencies: Seq::empty(),
            }),
    {
        let r = PlanBuilder {
            plan_id,
            operation_id,
            version: PlanVersion::first(),
            nodes: Vec::new(),
            dependencies: Vec::new(),
        };
        proof {
            assert(node_views(r.nodes@) =~= Seq::<PlanNodeView>::empty());
            assert(dependency_views(r.dependencies@) =~= Seq::<DependencyView>::empty());
        }
        r
    }

    /// Sets the version represented by the plan.
    pub fn version(self, version: PlanVersion) -> (r: PlanBuilder)
        ensures
            r@ == (PlanBuilderView { version: version@, ..self@ }),
    {
        PlanBuilder { version, ..self }
    }

    /// Adds a global coordination node; a repeated identity is rejected
    /// immediately.
    pub fn add_node(self, node: PlanNode) -> (r: Result<PlanBuilder, PlanBuildError>)
        ensures
            r is Ok <==> !has_node(self@.nodes, node@.node_id),
            r matches Ok(b) ==> b@ == (PlanBuilderView { nodes: self@.nodes.push(node@), ..self@ }),
            r matches Err(e) ==> e@ == (PlanBuildErrorView::DuplicateNodeId {
                node_id: node@.node_id,
            }),
    {
        match find_node(&self.nodes, &node.node_id) {
            Some(i) => {
                proof {
                    assert(node_views(self.nodes@)[i as int] == self.nodes@[i as int]@);
                }
                Err(PlanBuildError::DuplicateNodeId { node_id: node.node_id.clone() })
            },
            None => {
                let mut builder = self;
                let ghost before = node_views(builder.nodes@);
                builder.nodes.push(node);
                proof {
                    assert(node_views(builder.nodes@) =~= before.push(node@));
                }
                Ok(builder)
            },
        }
    }

    /// Adds one global dependency relationship after validating it on its
    /// own; plan-wide checks happen when the plan is built.
    pub fn add_dependency(self, dependency: Dependency) -> (r: Result<PlanBuilder, PlanBuildError>)
        ensures
            r is Ok <==> dependency_error(dependency@) is None,
            r matches Ok(b) ==> b@ == (PlanBuilderView {
                dependencies: self@.dependencies.push(dependency@),
                ..self@
            }),
            r matches Err(e) ==> e@ == (PlanBuildErrorView::InvalidDependency {
                source: dependency@.source,
                kind: dependency_error(dependency@).unwrap(),
            }),
    {
        match dependency.validate() {
            Err(error) => Err(
                PlanBuildError::InvalidDependency { source: dependency.source().clone(), error },
            ),
            Ok(()) => {
                let mut builder = self;
                let ghost before = dependency_views(builder.dependencies@);
                builder.dependencies.push(dependency);
                proof {
                    assert(dependency_views(builder.dependencies@) =~= before.push(dependency@));
                }
                Ok(builder)
            },
        }
    }

    /// Builds a draft plan and validates it.
    pub fn build(self) -> (r: Result<Plan, PlanBuildError>)
        ensures
            match r {
                Ok(plan) => {
                    &&& plan@ == (PlanView {
                        plan_id: self@.plan_id,
                        operation_id: self@.operation_id,
                        version: self@.version,
                        state: PlanState::Draft,
                        nodes: self@.nodes,
                        dependencies: self@.dependencies,
                    })
                    &&& validation_outcome(self@.nodes, self@.dependencies, Ok(()))
                },
                Err(e) => exists|v: PlanValidationErrorView|
                    e@ == PlanBuildErrorView::Validation(v) && validation_outcome(
                        self@.nodes,
                        self@.dependencies,
                        Err(v),
                    ),
            },
    {
        let plan = Plan {
            plan_id: self.plan_id,
            operation_id: self.operation_id,
            version: self.version,
            state: PlanState::Draft,
            nodes: self.nodes,
            dependencies: self.dependencies,
        };
        match plan.validate() {
            Ok(()) => Ok(plan),
            Err(e) => Err(PlanBuildError::Validation(e)),
        }
    }
}

/// A plan is valid exactly when it has no structural fault and its
/// node-to-node dependencies are acyclic; a reported cycle is a genuine
/// simple cycle of the plan.
pub proof fn lemma_validation_characterised(
    nodes: Seq<PlanNodeView>,
    deps: Seq<DependencyView>,
    r: Result<(), PlanValidationErrorView>,
)
    requires
        validation_outcome(nodes, deps, r),
    ensures
        r is Ok <==> (structural_fault(nodes, deps) is None && acyclic(deps)),
        r matches Err(PlanValidationErrorView::DependencyCycle { nodes: c }) ==> is_cycle(deps, c),
{
    lemma_structural_fault_is_not_a_cycle(nodes, deps);
}

proof fn lemma_structural_fault_is_not_a_cycle(nodes: Seq<PlanNodeView>, deps: Seq<DependencyView>)
    ensures
        !(structural_fault(nodes, deps) matches Some(PlanValidationErrorView::DependencyCycle { .. })),
{
}

} // verus!
