//! Contract descriptors and the canonical contract-compatibility rule.
//!
//! A contract is identified by its contract and capability identities, its
//! interaction kind and the payload it carries. Versions follow semantic
//! versioning: a different major version is incompatible, and an offer whose
//! minor version is older than the requirement cannot be established as
//! compatible.

use vstd::prelude::*;
use crate::identity::{CapabilityId, ContractId, EngineId, EngineInstanceId, MessageId};
use crate::operation::OperationContext;
use crate::status::Compatibility;
use crate::text::{decimal, decimal_text, is_blank, str_is_blank, str_equal};

verus! {

/// A semantic version.
#[derive(Clone, Copy, Debug, PartialEq, Eq, Structural)]
pub struct Version {
    pub major: u64,
    pub minor: u64,
    pub patch: u64,
}

impl Version {
    /// Creates a version from its three components.
    pub fn new(major: u64, minor: u64, patch: u64) -> (r: Version)
        ensures
            r == (Version { major, minor, patch }),
    {
        Version { major, minor, patch }
    }
}

/// The dotted decimal rendering of a version.
pub open spec fn version_text(v: Version) -> Seq<char> {
    decimal(v.major as nat) + "."@ + decimal(v.minor as nat) + "."@ + decimal(v.patch as nat)
}

impl Version {
    /// Renders the version as `major.minor.patch`.
    pub fn to_string(&self) -> (r: String)
        ensures
            r@ == version_text(*self),
    {
        let text = decimal_text(self.major);
        let text = text.concat(".");
        let minor = decimal_text(self.minor);
        let text = text.concat(minor.as_str());
        let text = text.concat(".");
        let patch = decimal_text(self.patch);
        text.concat(patch.as_str())
    }
}

impl Default for Version {
    fn default() -> (r: Self)
        ensures
            r == (Version { major: 0, minor: 0, patch: 0 }),
    {
        Version { major: 0, minor: 0, patch: 0 }
    }
}

/// The interaction pattern a contract describes.
#[derive(Clone, Copy, Debug, PartialEq, Eq, Structural)]
pub enum Interaction {
    Request,
    Response,
    Event,
}

/// Error returned when a payload media type is blank.
#[derive(Clone, Copy, Debug, PartialEq, Eq, Structural)]
pub struct InvalidPayloadDescriptor;

/// Describes the encoded payload carried by a contract.
#[derive(Debug, PartialEq, Eq)]
pub struct PayloadDescriptor {
    pub media_type: String,
    pub schema_version: Version,
}

/// Abstract value of a payload descriptor.
pub struct PayloadView {
    pub media_type: Seq<char>,
    pub schema_version: Version,
}

impl View for PayloadDescriptor {
    type V = PayloadView;

    open spec fn view(&self) -> PayloadView {
        PayloadView { media_type: self.media_type@, schema_version: self.schema_version }
    }
}

impl Clone for PayloadDescriptor {
    fn clone(&self) -> (r: Self)
        ensures
            r@ == self@,
    {
        PayloadDescriptor { media_type: self.media_type.clone(), schema_version: self.schema_version }
    }
}

impl PayloadDescriptor {
    /// Creates a payload descriptor from a non-blank media type.
    pub fn new(media_type: &str, schema_version: Version) -> (r: Result<
        PayloadDescriptor,
        InvalidPayloadDescriptor,
    >)
        ensures
            r is Ok <==> !is_blank(media_type@),
            r matches Ok(p) ==> p@ == (PayloadView { media_type: media_type@, schema_version }),
    {
        if str_is_blank(media_type) {
            Err(InvalidPayloadDescriptor)
        } else {
            Ok(PayloadDescriptor { media_type: media_type.to_owned(), schema_version })
        }
    }
}

/// Identity, version and payload of one contract.
#[derive(Debug, PartialEq, Eq)]
pub struct ContractDescriptor {
    pub contract_id: ContractId,
    pub capability_id: CapabilityId,
    pub version: Version,
    pub interaction: Interaction,
    pub payload: PayloadDescriptor,
}

/// Abstract value of a contract descriptor.
pub struct ContractView {
    pub contract_id: Seq<char>,
    pub capability_id: Seq<char>,
    pub version: Version,
    pub interaction: Interaction,
    pub payload: PayloadView,
}

impl View for ContractDescriptor {
    type V = ContractView;

    open spec fn view(&self) -> ContractView {
        ContractView {
            contract_id: self.contract_id@,
            capability_id: self.capability_id@,
            version: self.version,
            interaction: self.interaction,
            payload: self.payload@,
        }
    }
}

impl Clone for ContractDescriptor {
    fn clone(&self) -> (r: Self)
        ensures
            r@ == self@,
    {
        ContractDescriptor {
            contract_id: self.contract_id.clone(),
            capability_id: self.capability_id.clone(),
            version: self.version,
            interaction: self.interaction,
            payload: self.payload.clone(),
        }
    }
}

impl ContractDescriptor {
    /// Creates a contract descriptor.
    pub fn new(
        contract_id: ContractId,
        capability_id: CapabilityId,
        version: Version,
        interaction: Interaction,
        payload: PayloadDescriptor,
    ) -> (r: ContractDescriptor)
        ensures
            r@ == (ContractView {
                contract_id: contract_id@,
                capability_id: capability_id@,
                version,
                interaction,
                payload: payload@,
            }),
    {
        ContractDescriptor { contract_id, capability_id, version, interaction, payload }
    }

    /// Whether both descriptors describe exactly the same contract.
    pub fn same_as(&self, other: &ContractDescriptor) -> (r: bool)
        ensures
            r == (self@ == other@),
    {
        let r = self.contract_id.same_as(&other.contract_id) && self.capability_id.same_as(
            &other.capability_id,
        ) && self.version == other.version && self.interaction == other.interaction && str_equal(
            self.payload.media_type.as_str(),
            other.payload.media_type.as_str(),
        ) && self.payload.schema_version == other.payload.schema_version;
        proof {
            if r {
                assert(self@.payload == other@.payload);
            }
        }
        r
    }
}

/// The canonical compatibility of an offered contract with a required one.
pub open spec fn compatibility(required: ContractView, offered: ContractView) -> Compatibility {
    if required.contract_id != offered.contract_id || required.capability_id
        != offered.capability_id || required.interaction != offered.interaction
        || required.payload.media_type != offered.payload.media_type || required.version.major
        != offered.version.major || required.payload.schema_version.major
        != offered.payload.schema_version.major {
        Compatibility::Incompatible
    } else if offered.version.minor < required.version.minor
        || offered.payload.schema_version.minor < required.payload.schema_version.minor {
        Compatibility::Unknown
    } else {
        Compatibility::Compatible
    }
}

/// Every contract is compatible with itself, and an offer that differs from
/// the requirement only by a newer minor or patch version, of the contract or
/// of its payload schema, stays compatible; a different major version of
/// either is incompatible.
pub proof fn lemma_compatibility_follows_semantic_versions(required: ContractView, offered: ContractView)
    ensures
        compatibility(required, required) == Compatibility::Compatible,
        offered.contract_id == required.contract_id && offered.capability_id
            == required.capability_id && offered.interaction == required.interaction
            && offered.payload.media_type == required.payload.media_type && offered.version.major
            == required.version.major && offered.payload.schema_version.major
            == required.payload.schema_version.major && offered.version.minor
            >= required.version.minor && offered.payload.schema_version.minor
            >= required.payload.schema_version.minor ==> compatibility(required, offered)
            == Compatibility::Compatible,
        offered.version.major != required.version.major
            || offered.payload.schema_version.major != required.payload.schema_version.major
            ==> compatibility(required, offered) == Compatibility::Incompatible,
{
}

/// Compares a required contract with an offered contract.
pub fn compare_contracts(required: &ContractDescriptor, offered: &ContractDescriptor) -> (r:
    Compatibility)
    ensures
        r == compatibility(required@, offered@),
{
    if !required.contract_id.same_as(&offered.contract_id) || !required.capability_id.same_as(
        &offered.capability_id,
    ) || required.interaction != offered.interaction || !str_equal(
        required.payload.media_type.as_str(),
        offered.payload.media_type.as_str(),
    ) || required.version.major != offered.version.major
        || required.payload.schema_version.major != offered.payload.schema_version.major {
        Compatibility::Incompatible
    } else if offered.version.minor < required.version.minor
        || offered.payload.schema_version.minor < required.payload.schema_version.minor {
        Compatibility::Unknown
    } else {
        Compatibility::Compatible
    }
}

/// Sender and target of a contract interaction, optionally pinned to
/// concrete engine instances.
#[derive(Debug, PartialEq, Eq)]
pub struct Participants {
    pub sender: EngineId,
    pub target: EngineId,
    pub sender_instance: Option<EngineInstanceId>,
    pub target_instance: Option<EngineInstanceId>,
}

fn copy_instance(instance: &Option<EngineInstanceId>) -> (r: Option<EngineInstanceId>)
    ensures
        match r {
            Some(x) => instance matches Some(y) && x@ == y@,
            None => instance is None,
        },
{
    match instance {
        Some(i) => Some(i.clone()),
        None => None,
    }
}

impl Clone for Participants {
    fn clone(&self) -> (r: Self)
        ensures
            r.sender@ == self.sender@,
            r.target@ == self.target@,
    {
        Participants {
            sender: self.sender.clone(),
            target: self.target.clone(),
            sender_instance: copy_instance(&self.sender_instance),
            target_instance: copy_instance(&self.target_instance),
        }
    }
}

impl Participants {
    /// Creates the participants of an interaction, not pinned to instances.
    pub fn new(sender: EngineId, target: EngineId) -> (r: Participants)
        ensures
            r.sender@ == sender@,
            r.target@ == target@,
            r.sender_instance is None,
            r.target_instance is None,
    {
        Participants { sender, target, sender_instance: None, target_instance: None }
    }
}

/// Requirements an interaction states about the contract that serves it.
#[derive(Debug, PartialEq, Eq)]
pub struct RequirementsMetadata {
    pub capability: Option<CapabilityId>,
    pub minimum_contract_version: Option<Version>,
}

impl Clone for RequirementsMetadata {
    fn clone(&self) -> (r: Self)
        ensures
            r.minimum_contract_version == self.minimum_contract_version,
            match r.capability {
                Some(c) => self.capability matches Some(d) && c@ == d@,
                None => self.capability is None,
            },
    {
        let capability = match &self.capability {
            Some(c) => Some(c.clone()),
            None => None,
        };
        RequirementsMetadata { capability, minimum_contract_version: self.minimum_contract_version }
    }
}

impl RequirementsMetadata {
    /// No requirements.
    pub fn none() -> (r: RequirementsMetadata)
        ensures
            r.capability is None,
            r.minimum_contract_version is None,
    {
        RequirementsMetadata { capability: None, minimum_contract_version: None }
    }

    /// Requires the contract to serve the given capability.
    pub fn requiring_capability(self, capability: CapabilityId) -> (r: RequirementsMetadata)
        ensures
            r.capability matches Some(c) && c@ == capability@,
            r.minimum_contract_version == self.minimum_contract_version,
    {
        RequirementsMetadata { capability: Some(capability), ..self }
    }

    /// Requires at least the given contract version.
    pub fn requiring_contract_version(self, version: Version) -> (r: RequirementsMetadata)
        ensures
            r.minimum_contract_version == Some(version),
            match r.capability {
                Some(c) => self.capability matches Some(d) && c@ == d@,
                None => self.capability is None,
            },
    {
        RequirementsMetadata { minimum_contract_version: Some(version), ..self }
    }
}

/// Contract metadata carried by one interaction.
#[derive(Debug, PartialEq, Eq)]
pub struct ContractMetadata {
    pub descriptor: ContractDescriptor,
    pub participants: Participants,
    pub requirements: RequirementsMetadata,
}

impl Clone for ContractMetadata {
    fn clone(&self) -> (r: Self)
        ensures
            r.descriptor@ == self.descriptor@,
    {
        ContractMetadata {
            descriptor: self.descriptor.clone(),
            participants: self.participants.clone(),
            requirements: self.requirements.clone(),
        }
    }
}

impl ContractMetadata {
    /// Creates contract metadata without requirements.
    pub fn new(descriptor: ContractDescriptor, participants: Participants) -> (r: ContractMetadata)
        ensures
            r.descriptor@ == descriptor@,
            r.participants.sender@ == participants.sender@,
            r.participants.target@ == participants.target@,
            r.requirements.capability is None,
            r.requirements.minimum_contract_version is None,
    {
        ContractMetadata { descriptor, participants, requirements: RequirementsMetadata::none() }
    }

    /// Returns the metadata with the given requirements.
    pub fn with_requirements(self, requirements: RequirementsMetadata) -> (r: ContractMetadata)
        ensures
            r.descriptor@ == self.descriptor@,
            r.requirements == requirements,
    {
        ContractMetadata { requirements, ..self }
    }
}

/// An encoded payload and the descriptor it claims.
#[derive(Debug, PartialEq, Eq)]
pub struct EncodedPayload {
    descriptor: PayloadDescriptor,
    bytes: Vec<u8>,
}

impl Clone for EncodedPayload {
    fn clone(&self) -> (r: Self)
        ensures
            r.descriptor()@ == self.descriptor()@,
            r.spec_bytes() == self.spec_bytes(),
    {
        EncodedPayload { descriptor: self.descriptor.clone(), bytes: self.bytes.clone() }
    }
}

impl EncodedPayload {
    /// Creates an encoded payload.
    pub fn new(descriptor: PayloadDescriptor, bytes: Vec<u8>) -> (r: EncodedPayload)
        ensures
            r.descriptor()@ == descriptor@,
            r.spec_bytes() == bytes@,
    {
        EncodedPayload { descriptor, bytes }
    }

    /// Returns the claimed payload descriptor.
    #[verifier::when_used_as_spec(spec_descriptor)]
    pub fn descriptor(&self) -> (r: &PayloadDescriptor)
        ensures
            r == self.spec_descriptor(),
    {
        &self.descriptor
    }

    /// Returns the encoded bytes.
    pub fn bytes(&self) -> (r: &[u8])
        ensures
            r@ == self.spec_bytes(),
    {
        self.bytes.as_slice()
    }

    pub closed spec fn spec_descriptor(&self) -> &PayloadDescriptor {
        &self.descriptor
    }

    pub closed spec fn spec_bytes(&self) -> Seq<u8> {
        self.bytes@
    }
}

/// One message: its identity, the operation it belongs to, its contract
/// metadata and its payload.
#[derive(Debug, PartialEq, Eq)]
pub struct MessageEnvelope {
    pub message_id: MessageId,
    pub operation_context: OperationContext,
    pub metadata: ContractMetadata,
    pub payload: EncodedPayload,
}

impl Clone for MessageEnvelope {
    fn clone(&self) -> (r: Self) {
        MessageEnvelope {
            message_id: self.message_id.clone(),
            operation_context: self.operation_context.clone(),
            metadata: self.metadata.clone(),
            payload: self.payload.clone(),
        }
    }
}

impl MessageEnvelope {
    /// Creates a message envelope.
    pub fn new(
        message_id: MessageId,
        operation_context: OperationContext,
        metadata: ContractMetadata,
        payload: EncodedPayload,
    ) -> (r: MessageEnvelope)
        ensures
            r == (MessageEnvelope { message_id, operation_context, metadata, payload }),
    {
        MessageEnvelope { message_id, operation_context, metadata, payload }
    }
}

/// The event carried by a universal request.
#[derive(Debug, PartialEq, Eq)]
pub struct UniversalEvent {
    pub envelope: MessageEnvelope,
}

impl Clone for UniversalEvent {
    fn clone(&self) -> (r: Self) {
        UniversalEvent { envelope: self.envelope.clone() }
    }
}

/// A request from one engine to a capability of another.
#[derive(Debug, PartialEq, Eq)]
pub struct UniversalRequest {
    pub event: UniversalEvent,
}

impl Clone for UniversalRequest {
    fn clone(&self) -> (r: Self) {
        UniversalRequest { event: self.event.clone() }
    }
}

impl UniversalRequest {
    /// Creates a request from its envelope.
    pub fn new(envelope: MessageEnvelope) -> (r: UniversalRequest)
        ensures
            r == (UniversalRequest { event: UniversalEvent { envelope } }),
    {
        UniversalRequest { event: UniversalEvent { envelope } }
    }

    /// Returns the request's contract metadata.
    pub fn metadata(&self) -> (r: &ContractMetadata)
        ensures
            r == &self.event.envelope.metadata,
    {
        &self.event.envelope.metadata
    }
}

/// Reasons a request violates its contract.
#[derive(Clone, Copy, Debug, PartialEq, Eq, Structural)]
pub enum ValidationError {
    /// The contract does not describe a request interaction.
    InteractionMismatch,
    /// The payload claims another descriptor than the contract's.
    PayloadDescriptorMismatch,
    /// The payload holds no bytes.
    EmptyPayload,
    /// The request requires another capability than the contract serves.
    CapabilityRequirementMismatch,
    /// The contract is older than the request's minimum version.
    MinimumContractVersionMismatch,
}

/// The human-readable description of a contract violation.
pub open spec fn validation_error_text(e: ValidationError) -> Seq<char> {
    match e {
        ValidationError::InteractionMismatch => "the contract does not describe a request"@,
        ValidationError::PayloadDescriptorMismatch => "the payload descriptor does not match the contract"@,
        ValidationError::EmptyPayload => "the payload is empty"@,
        ValidationError::CapabilityRequirementMismatch => "the required capability does not match the contract"@,
        ValidationError::MinimumContractVersionMismatch => "the contract is older than the required minimum version"@,
    }
}

impl ValidationError {
    /// Human-readable description of the violation.
    pub fn to_string(&self) -> (r: String)
        ensures
            r@ == validation_error_text(*self),
    {
        match self {
            ValidationError::InteractionMismatch => "the contract does not describe a request".to_string(),
            ValidationError::PayloadDescriptorMismatch => "the payload descriptor does not match the contract".to_string(),
            ValidationError::EmptyPayload => "the payload is empty".to_string(),
            ValidationError::CapabilityRequirementMismatch => "the required capability does not match the contract".to_string(),
            ValidationError::MinimumContractVersionMismatch => "the contract is older than the required minimum version".to_string(),
        }
    }
}

/// Version `v` is at least `minimum`, comparing major, minor and patch in
/// turn.
pub open spec fn version_at_least(v: Version, minimum: Version) -> bool {
    v.major > minimum.major || (v.major == minimum.major && (v.minor > minimum.minor || (v.minor
        == minimum.minor && v.patch >= minimum.patch)))
}

/// How a request violates its contract, in the order the checks apply.
pub open spec fn request_fault(request: UniversalRequest) -> Option<ValidationError> {
    let envelope = request.event.envelope;
    let descriptor = envelope.metadata.descriptor;
    if descriptor.interaction != Interaction::Request {
        Some(ValidationError::InteractionMismatch)
    } else if envelope.payload.descriptor()@ != descriptor.payload@ {
        Some(ValidationError::PayloadDescriptorMismatch)
    } else if envelope.payload.spec_bytes().len() == 0 {
        Some(ValidationError::EmptyPayload)
    } else if envelope.metadata.requirements.capability matches Some(c) && c@
        != descriptor.capability_id@ {
        Some(ValidationError::CapabilityRequirementMismatch)
    } else if envelope.metadata.requirements.minimum_contract_version matches Some(v)
        && !version_at_least(descriptor.version, v) {
        Some(ValidationError::MinimumContractVersionMismatch)
    } else {
        None
    }
}

/// Checks a request against its own contract.
pub fn validate_request(request: &UniversalRequest) -> (r: Result<(), ValidationError>)
    ensures
        match request_fault(*request) {
            Some(e) => r == Err::<(), ValidationError>(e),
            None => r is Ok,
        },
{
    let envelope = &request.event.envelope;
    let descriptor = &envelope.metadata.descriptor;
    if descriptor.interaction != Interaction::Request {
        return Err(ValidationError::InteractionMismatch);
    }
    let claimed = envelope.payload.descriptor();
    if !(str_equal(claimed.media_type.as_str(), descriptor.payload.media_type.as_str())
        && claimed.schema_version == descriptor.payload.schema_version) {
        return Err(ValidationError::PayloadDescriptorMismatch);
    }
    if envelope.payload.bytes().len() == 0 {
        return Err(ValidationError::EmptyPayload);
    }
    match &envelope.metadata.requirements.capability {
        Some(c) => {
            if !c.same_as(&descriptor.capability_id) {
                return Err(ValidationError::CapabilityRequirementMismatch);
            }
        },
        None => {},
    }
    match envelope.metadata.requirements.minimum_contract_version {
        Some(v) => {
            let d = descriptor.version;
            let at_least = d.major > v.major || (d.major == v.major && (d.minor > v.minor || (
            d.minor == v.minor && d.patch >= v.patch)));
            if !at_least {
                return Err(ValidationError::MinimumContractVersionMismatch);
            }
        },
        None => {},
    }
    Ok(())
}

} // verus!
