use fasti_api::credential_changes::{
    configure_pending_states, remove_pending_states, settle_configure, settle_remove,
    CredentialStepError,
};
use fasti_api::problem::ProblemCode;
use fasti_api::providers::{
    initial_state, CapabilitySpec, CapabilityStatus, CredentialRequirement, CredentialStatus,
    ProviderCapabilityState, StatePortError, VaultSource,
};

fn capability(id: &str, requirement: CredentialRequirement, version: u64) -> ProviderCapabilityState {
    let spec = CapabilitySpec {
        capability_id: id.to_owned(),
        credential_requirement: requirement,
        credential_test: true,
    };
    let mut state = initial_state(
        "tmdb",
        &spec,
        "vault:tmdb".to_owned(),
        VaultSource::Absent,
        format!("digest-{id}"),
    );
    state.capability_version = version;
    state
}

fn provider_states() -> Vec<ProviderCapabilityState> {
    vec![
        capability("metadata.read", CredentialRequirement::ApiKey, 4),
        capability("artwork.read", CredentialRequirement::OptionalApiKey, 9),
    ]
}

fn digests() -> Vec<Result<String, ProblemCode>> {
    vec![Ok("digest-a".to_owned()), Ok("digest-b".to_owned())]
}

fn assert_restored(prior: &ProviderCapabilityState, restored: &ProviderCapabilityState) {
    assert_eq!(restored.capability_version, prior.capability_version + 2);
    assert_eq!(restored.capability_id, prior.capability_id);
    assert_eq!(restored.capability_status, prior.capability_status);
    assert_eq!(restored.credential_reference, prior.credential_reference);
    assert_eq!(restored.credential_status, prior.credential_status);
    assert_eq!(restored.configuration_digest, prior.configuration_digest);
    assert_eq!(restored.health.status, prior.health.status);
    assert_eq!(restored.credential_test.status, prior.credential_test.status);
}

#[test]
fn credential_write_puts_every_capability_pending_in_order() {
    let currents = provider_states();
    let reference = "vault:tmdb".to_owned();
    let (pending, err) = configure_pending_states(&currents, &reference, &digests());
    assert_eq!(err, None);
    assert_eq!(pending.len(), 2);
    assert_eq!(pending[0].capability_id, "metadata.read");
    assert_eq!(pending[1].capability_id, "artwork.read");
    assert_eq!(pending[0].capability_version, 5);
    assert_eq!(pending[1].capability_version, 10);
    for state in &pending {
        assert_eq!(state.capability_status, CapabilityStatus::Disabled);
        assert_eq!(state.credential_status, CredentialStatus::StoredUnverified);
        assert_eq!(state.credential_reference.as_deref(), Some("vault:tmdb"));
    }
    assert_eq!(pending[0].configuration_digest, "digest-a");
    assert_eq!(pending[1].configuration_digest, "digest-b");
}

#[test]
fn failed_vault_write_restores_every_capability() {
    let currents = provider_states();
    let reference = "vault:tmdb".to_owned();
    let (pending, _) = configure_pending_states(&currents, &reference, &digests());
    let (restored, err) = settle_configure(
        &currents,
        &pending,
        &reference,
        Err(ProblemCode::ProviderCredentialInvalid),
    );
    assert_eq!(
        err,
        Some(CredentialStepError::Runtime(ProblemCode::ProviderCredentialInvalid))
    );
    assert_eq!(restored.len(), 2);
    assert_restored(&currents[0], &restored[0]);
    assert_restored(&currents[1], &restored[1]);
}

#[test]
fn vault_failure_other_than_a_refused_credential_is_answered_as_unavailable() {
    let currents = provider_states();
    let reference = "vault:tmdb".to_owned();
    let (pending, _) = configure_pending_states(&currents, &reference, &digests());
    let (_, err) = settle_configure(&currents, &pending, &reference, Err(ProblemCode::StorageUnavailable));
    assert_eq!(err, Some(CredentialStepError::Runtime(ProblemCode::ProviderUnavailable)));
}

#[test]
fn accepted_credential_write_makes_every_capability_available() {
    let currents = provider_states();
    let reference = "vault:tmdb".to_owned();
    let (pending, _) = configure_pending_states(&currents, &reference, &digests());
    let (done, err) = settle_configure(&currents, &pending, &reference, Ok(()));
    assert_eq!(err, None);
    assert_eq!(done.len(), 2);
    assert_eq!(done[0].capability_version, 6);
    assert_eq!(done[1].capability_version, 11);
    for state in &done {
        assert_eq!(state.capability_status, CapabilityStatus::Available);
        assert_eq!(state.credential_status, CredentialStatus::StoredUnverified);
    }
    assert_eq!(done[1].configuration_digest, "digest-b");
}

#[test]
fn failed_digest_stops_the_pending_writes_at_that_capability() {
    let currents = provider_states();
    let reference = "vault:tmdb".to_owned();
    let digests = vec![Ok("digest-a".to_owned()), Err(ProblemCode::ProviderCredentialMissing)];
    let (pending, err) = configure_pending_states(&currents, &reference, &digests);
    assert_eq!(pending.len(), 1);
    assert_eq!(err, Some(CredentialStepError::Runtime(ProblemCode::ProviderUnavailable)));
}

#[test]
fn exhausted_version_stops_the_pending_writes_as_corrupt_state() {
    let currents = vec![
        capability("metadata.read", CredentialRequirement::ApiKey, 1),
        capability("artwork.read", CredentialRequirement::ApiKey, u64::MAX),
    ];
    let (pending, err) = remove_pending_states(&currents, &"vault:tmdb".to_owned());
    assert_eq!(pending.len(), 1);
    assert_eq!(err, Some(CredentialStepError::State(StatePortError::Corrupt)));
}

#[test]
fn failed_revocation_restores_every_capability() {
    let currents = provider_states();
    let reference = "vault:tmdb".to_owned();
    let (pending, err) = remove_pending_states(&currents, &reference);
    assert_eq!(err, None);
    assert!(pending.iter().all(|s| s.capability_status == CapabilityStatus::Disabled));
    let (restored, err) = settle_remove(&currents, &pending, Err(ProblemCode::ProviderUnavailable));
    assert_eq!(err, Some(CredentialStepError::Runtime(ProblemCode::ProviderUnavailable)));
    assert_eq!(restored.len(), 2);
    assert_restored(&currents[0], &restored[0]);
    assert_restored(&currents[1], &restored[1]);
}

#[test]
fn accepted_revocation_clears_every_capability_credential() {
    let currents = provider_states();
    let reference = "vault:tmdb".to_owned();
    let (pending, _) = remove_pending_states(&currents, &reference);
    let (done, err) = settle_remove(&currents, &pending, Ok(()));
    assert_eq!(err, None);
    assert_eq!(done.len(), 2);
    assert_eq!(done[0].credential_status, CredentialStatus::Missing);
    assert_eq!(done[1].credential_status, CredentialStatus::Optional);
    for state in &done {
        assert_eq!(state.capability_status, CapabilityStatus::Unavailable);
        assert_eq!(state.credential_reference, None);
    }
}
