use nizaam_core::contracts::{ContractDescriptor, Interaction, PayloadDescriptor, Version};
use nizaam_core::control_plane::provider::{
    compatible_contracts, filter_by_capability, filter_compatible, is_compatible,
    require_compatible, supports_capability, ProviderDefinitionError, ProviderDescriptor,
    ProviderId, ProviderResolutionError,
};
use nizaam_core::identity::{CapabilityId, ContractId, EngineId};

fn provider_id(value: &str) -> ProviderId {
    value.to_owned()
}

fn engine_id(value: &str) -> EngineId {
    EngineId::new(value).unwrap()
}

fn capability_id(value: &str) -> CapabilityId {
    CapabilityId::new(value).unwrap()
}

fn contract(
    contract: &str,
    capability: &str,
    version: Version,
    schema_version: Version,
) -> ContractDescriptor {
    ContractDescriptor::new(
        ContractId::new(contract).unwrap(),
        capability_id(capability),
        version,
        Interaction::Request,
        PayloadDescriptor::new("application/octet-stream", schema_version).unwrap(),
    )
}

fn provider(id: &str, engine: &str, capabilities: &[&str]) -> ProviderDescriptor {
    ProviderDescriptor::new(
        &provider_id(id),
        engine_id(engine),
        capabilities
            .iter()
            .map(|value| capability_id(value))
            .collect(),
    )
    .unwrap()
}

fn provider_with_contract(
    id: &str,
    engine: &str,
    contract_id: &str,
    capability: &str,
    offered_version: Version,
) -> ProviderDescriptor {
    provider(id, engine, &[capability])
        .with_contract(contract(
            contract_id,
            capability,
            offered_version,
            Version::new(1, 0, 0),
        ))
        .unwrap()
}

#[test]
fn valid_provider_definition_preserves_metadata() {
    let descriptor = provider("provider-a", "engine-a", &["quran.search"])
        .with_version(Version::new(2, 1, 0))
        .with_metadata("region", "in-west")
        .unwrap();

    assert_eq!(descriptor.provider_id().as_str(), "provider-a");
    assert_eq!(descriptor.owning_engine().as_str(), "engine-a");
    assert_eq!(descriptor.capabilities().len(), 1);
    assert_eq!(descriptor.version(), Some(&Version::new(2, 1, 0)));
    assert_eq!(
        descriptor.metadata().get("region"),
        Some("in-west")
    );
    assert!(descriptor.contracts().is_empty());
    assert_eq!(descriptor.validate(), Ok(()));
}

#[test]
fn provider_requires_at_least_one_capability() {
    let result =
        ProviderDescriptor::new(&provider_id("provider-a"), engine_id("engine-a"), vec![]);

    assert_eq!(result, Err(ProviderDefinitionError::NoCapabilities));
}

#[test]
fn contract_must_reference_an_advertised_capability() {
    let result = provider("provider-a", "engine-a", &["quran.search"]).with_contract(contract(
        "arabic.contract",
        "arabic.analyze",
        Version::new(1, 0, 0),
        Version::new(1, 0, 0),
    ));

    assert_eq!(
        result,
        Err(ProviderDefinitionError::ContractCapabilityNotAdvertised {
            provider_id: provider_id("provider-a"),
            capability_id: capability_id("arabic.analyze"),
        })
    );
}

#[test]
fn metadata_rejects_empty_key() {
    let result =
        provider("provider-a", "engine-a", &["quran.search"]).with_metadata("", "value");

    assert_eq!(result, Err(ProviderDefinitionError::EmptyMetadataKey));
}

#[test]
fn metadata_rejects_empty_value() {
    let result =
        provider("provider-a", "engine-a", &["quran.search"]).with_metadata("region", "");

    assert_eq!(result, Err(ProviderDefinitionError::EmptyMetadataValue));
}

#[test]
fn supports_matching_capability() {
    let descriptor = provider("provider-a", "engine-a", &["quran.search"]);

    assert!(supports_capability(
        &descriptor,
        &capability_id("quran.search")
    ));
    assert!(!supports_capability(
        &descriptor,
        &capability_id("arabic.analyze")
    ));
}

#[test]
fn filter_by_capability_preserves_input_order_and_multiple_providers() {
    let providers = vec![
        provider("provider-a", "engine-a", &["quran.search"]),
        provider("provider-b", "engine-b", &["arabic.analyze"]),
        provider("provider-c", "engine-c", &["quran.search"]),
    ];

    let matches = filter_by_capability(&capability_id("quran.search"), &providers);

    assert_eq!(matches.len(), 2);
    assert_eq!(matches[0].provider_id().as_str(), "provider-a");
    assert_eq!(matches[1].provider_id().as_str(), "provider-c");
}

#[test]
fn compatible_contracts_reuses_canonical_contract_compatibility() {
    let required = contract(
        "quran.contract",
        "quran.search",
        Version::new(1, 0, 0),
        Version::new(1, 0, 0),
    );
    let provider = provider("provider-a", "engine-a", &["quran.search"])
        .with_contract(contract(
            "quran.contract",
            "quran.search",
            Version::new(1, 1, 0),
            Version::new(1, 0, 0),
        ))
        .unwrap()
        .with_contract(contract(
            "other.contract",
            "quran.search",
            Version::new(1, 0, 0),
            Version::new(1, 0, 0),
        ))
        .unwrap();

    let matches = compatible_contracts(&required, &provider);

    assert_eq!(matches.len(), 1);
    assert_eq!(
        matches[0].contract_id,
        ContractId::new("quran.contract").unwrap()
    );
}

#[test]
fn unknown_contract_compatibility_is_not_treated_as_compatible() {
    let required = contract(
        "quran.contract",
        "quran.search",
        Version::new(1, 1, 0),
        Version::new(1, 0, 0),
    );
    let provider = provider_with_contract(
        "provider-a",
        "engine-a",
        "quran.contract",
        "quran.search",
        Version::new(1, 0, 0),
    );

    assert!(compatible_contracts(&required, &provider).is_empty());
    assert!(!is_compatible(
        &capability_id("quran.search"),
        &required,
        &provider
    ));
}

#[test]
fn is_compatible_requires_matching_capability_and_contract() {
    let required = contract(
        "quran.contract",
        "quran.search",
        Version::new(1, 0, 0),
        Version::new(1, 0, 0),
    );
    let provider = provider_with_contract(
        "provider-a",
        "engine-a",
        "quran.contract",
        "quran.search",
        Version::new(1, 0, 0),
    );

    assert!(is_compatible(
        &capability_id("quran.search"),
        &required,
        &provider
    ));
    assert!(!is_compatible(
        &capability_id("arabic.analyze"),
        &required,
        &provider
    ));
}

#[test]
fn filter_compatible_returns_all_compatible_providers_in_order() {
    let required = contract(
        "quran.contract",
        "quran.search",
        Version::new(1, 0, 0),
        Version::new(1, 0, 0),
    );
    let providers = vec![
        provider_with_contract(
            "provider-a",
            "engine-a",
            "quran.contract",
            "quran.search",
            Version::new(1, 0, 0),
        ),
        provider_with_contract(
            "provider-b",
            "engine-b",
            "quran.contract",
            "quran.search",
            Version::new(2, 0, 0),
        ),
        provider_with_contract(
            "provider-c",
            "engine-c",
            "quran.contract",
            "quran.search",
            Version::new(1, 2, 0),
        ),
    ];

    let matches = filter_compatible(&capability_id("quran.search"), &required, &providers);

    assert_eq!(matches.len(), 2);
    assert_eq!(matches[0].provider_id().as_str(), "provider-a");
    assert_eq!(matches[1].provider_id().as_str(), "provider-c");
}

#[test]
fn require_compatible_distinguishes_missing_capability_from_incompatibility() {
    let required = contract(
        "quran.contract",
        "quran.search",
        Version::new(1, 0, 0),
        Version::new(1, 0, 0),
    );

    let missing = vec![provider("provider-a", "engine-a", &["arabic.analyze"])];
    assert_eq!(
        require_compatible(&capability_id("quran.search"), &required, &missing),
        Err(ProviderResolutionError::NoProviderForCapability {
            capability_id: capability_id("quran.search"),
        })
    );

    let incompatible = vec![provider_with_contract(
        "provider-a",
        "engine-a",
        "quran.contract",
        "quran.search",
        Version::new(2, 0, 0),
    )];
    assert_eq!(
        require_compatible(&capability_id("quran.search"), &required, &incompatible),
        Err(ProviderResolutionError::NoCompatibleProvider {
            capability_id: capability_id("quran.search"),
            contract_id: ContractId::new("quran.contract").unwrap(),
        })
    );
}

#[test]
fn require_compatible_returns_candidates_without_selecting_one() {
    let required = contract(
        "quran.contract",
        "quran.search",
        Version::new(1, 0, 0),
        Version::new(1, 0, 0),
    );
    let providers = vec![
        provider_with_contract(
            "provider-a",
            "engine-a",
            "quran.contract",
            "quran.search",
            Version::new(1, 0, 0),
        ),
        provider_with_contract(
            "provider-b",
            "engine-b",
            "quran.contract",
            "quran.search",
            Version::new(1, 0, 0),
        ),
    ];

    let matches =
        require_compatible(&capability_id("quran.search"), &required, &providers).unwrap();

    assert_eq!(matches.len(), 2);
    assert_eq!(matches[0].provider_id().as_str(), "provider-a");
    assert_eq!(matches[1].provider_id().as_str(), "provider-b");
}

#[test]
fn provider_descriptor_contains_no_concrete_engine_instance_identity() {
    let descriptor = provider("provider-a", "engine-a", &["quran.search"]);

    let _provider_id = descriptor.provider_id();
    let _engine_id = descriptor.owning_engine();
    assert!(descriptor.contracts().is_empty());
}

