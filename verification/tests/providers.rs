use fasti_api::problem::ProblemCode;
use fasti_api::providers::{
    capability_dto, configure_complete, configure_pending, credential_source, find_state,
    initial_state, inventory_state, invalid_path, is_read_only_source, next_state,
    remove_complete, remove_pending, restore_state, restrict_for_browser, runtime_problem,
    state_problem, valid_provider_secret, check_update, CapabilitySpec, CapabilityStateDto,
    CapabilityStatus, CheckKind, CheckMetadata, CheckStatus, CredentialRequirement,
    CredentialSourceDto, CredentialStateDto, CredentialStatus, ProviderCapabilityState,
    ProviderRoute, StatePortError, VaultSource, descriptor_support, vault_revoke_for,
    vault_write_for, VaultWrite,
};

fn spec(id: &str, requirement: CredentialRequirement, testable: bool) -> CapabilitySpec {
    CapabilitySpec { capability_id: id.to_owned(), credential_requirement: requirement, credential_test: testable }
}

fn state(version: u64) -> ProviderCapabilityState {
    initial_state(
        "tmdb",
        &spec("metadata.read", CredentialRequirement::ApiKey, true),
        "vault:tmdb".to_owned(),
        VaultSource::CredentialStore,
        "digest-1".to_owned(),
    )
    .with_version(version)
}

trait WithVersion {
    fn with_version(self, version: u64) -> Self;
}

impl WithVersion for ProviderCapabilityState {
    fn with_version(mut self, version: u64) -> Self {
        self.capability_version = version;
        self
    }
}

fn same_fields(a: &ProviderCapabilityState, b: &ProviderCapabilityState) -> bool {
    a.provider_id == b.provider_id
        && a.capability_id == b.capability_id
        && a.capability_status == b.capability_status
        && a.credential_requirement == b.credential_requirement
        && a.credential_reference == b.credential_reference
        && a.credential_status == b.credential_status
        && a.configuration_digest == b.configuration_digest
        && a.health.status == b.health.status
        && a.health.checked_at == b.health.checked_at
        && a.credential_test.status == b.credential_test.status
}

#[test]
fn environment_credentials_are_visible_and_read_only() {
    let spec = spec("metadata.read", CredentialRequirement::ApiKey, true);
    let state = initial_state("tmdb", &spec, "vault:tmdb".to_owned(), VaultSource::Environment, "d".to_owned());
    let dto = capability_dto(true, &spec, Some(&state), Ok(VaultSource::Environment));
    assert_eq!(dto.credential_source, CredentialSourceDto::Environment);
    assert_eq!(dto.credential_state, CredentialStateDto::StoredUnverified);
    assert!(!dto.writable);
}

#[test]
fn unavailable_provider_capabilities_keep_credential_requirements_truthful() {
    let spec = spec("metadata.read", CredentialRequirement::UserAgentOnly, false);
    let dto = capability_dto(false, &spec, None, Ok(VaultSource::Absent));
    assert_eq!(dto.credential_state, CredentialStateDto::NotRequired);
    assert_eq!(dto.state, CapabilityStateDto::Unavailable);
    assert!(!dto.writable);
    assert!(!dto.testable);
}

#[test]
fn capability_report_fields() {
    let spec = spec("metadata.search", CredentialRequirement::ApiKey, true);
    let stored = state(4);
    let dto = capability_dto(true, &spec, Some(&stored), Ok(VaultSource::CredentialStore));
    assert_eq!(dto.purpose, "Search provider metadata");
    assert_eq!(dto.state, CapabilityStateDto::Available);
    assert_eq!(dto.version, 4);
    assert!(dto.writable);
    assert_eq!(dto.health.state, CheckStatus::NeverRun);
    let dto = capability_dto(true, &spec, Some(&stored), Err(()));
    assert_eq!(dto.credential_state, CredentialStateDto::Unavailable);
    assert_eq!(dto.state, CapabilityStateDto::Degraded);
    assert!(!dto.writable);
    let dto = capability_dto(true, &spec, Some(&stored), Ok(VaultSource::Absent));
    assert_eq!(dto.credential_state, CredentialStateDto::Missing);
    assert_eq!(dto.state, CapabilityStateDto::Unavailable);
    let dto = capability_dto(true, &spec, None, Ok(VaultSource::Absent));
    assert_eq!(dto.version, 0);
    assert_eq!(dto.credential_state, CredentialStateDto::Missing);
    assert_eq!(credential_source(false, Err(())), (CredentialSourceDto::Absent, true, false));
    assert_eq!(
        credential_source(true, Ok(VaultSource::OperatorSecretMount)),
        (CredentialSourceDto::OperatorSecretMount, true, true)
    );
}

#[test]
fn initial_state_reflects_the_vault_and_requirement() {
    let s = initial_state(
        "open-library",
        &spec("metadata.read", CredentialRequirement::OptionalApiKey, false),
        "r".to_owned(),
        VaultSource::Absent,
        "d".to_owned(),
    );
    assert_eq!(s.capability_version, 1);
    assert_eq!(s.capability_status, CapabilityStatus::Unavailable);
    assert_eq!(s.credential_status, CredentialStatus::Optional);
    assert!(s.credential_reference.is_none());
}

#[test]
fn failed_configure_restores_the_original_state() {
    let current = state(5);
    let pending = configure_pending(&current, &"vault:new".to_owned(), "digest-2".to_owned()).expect("pending");
    assert_eq!(pending.capability_status, CapabilityStatus::Disabled);
    assert_eq!(pending.capability_version, 6);
    let restored = restore_state(&pending, &current).expect("restored");
    assert_eq!(restored.capability_version, 7);
    assert!(same_fields(&restored, &current));
    let done = configure_complete(&pending, &"vault:new".to_owned()).expect("complete");
    assert_eq!(done.capability_status, CapabilityStatus::Available);
    assert_eq!(done.credential_status, CredentialStatus::StoredUnverified);
    assert_eq!(done.configuration_digest, "digest-2");
}

#[test]
fn remove_transitions() {
    let current = state(1);
    let pending = remove_pending(&current, &"vault:tmdb".to_owned()).expect("pending");
    assert_eq!(pending.capability_status, CapabilityStatus::Disabled);
    let removed = remove_complete(&pending).expect("removed");
    assert_eq!(removed.capability_status, CapabilityStatus::Unavailable);
    assert_eq!(removed.credential_status, CredentialStatus::Missing);
    assert!(removed.credential_reference.is_none());
    let restored = restore_state(&pending, &current).expect("restored");
    assert!(same_fields(&restored, &current));
}

#[test]
fn version_overflow_is_corrupt_state() {
    let at_max = state(u64::MAX);
    assert!(matches!(
        next_state(
            &at_max,
            CapabilityStatus::Available,
            None,
            CredentialStatus::Missing,
            "d".to_owned(),
            CheckMetadata::never_run(),
            CheckMetadata::never_run()
        ),
        Err(StatePortError::Corrupt)
    ));
}

#[test]
fn checks_record_their_outcome() {
    let current = state(2);
    let failed = check_update(
        &current,
        CheckKind::Health,
        Some(ProblemCode::ProviderUnavailable),
        CredentialStatus::StoredUnverified,
        "2026-01-01T00:00:00+00:00".to_owned(),
    )
    .expect("updated");
    assert_eq!(failed.capability_status, CapabilityStatus::Degraded);
    assert_eq!(failed.health.status, CheckStatus::Unavailable);
    assert_eq!(failed.credential_test.status, CheckStatus::NeverRun);
    let passed = check_update(&current, CheckKind::Credential, None, CredentialStatus::Valid, "t".to_owned())
        .expect("updated");
    assert_eq!(passed.capability_status, CapabilityStatus::Available);
    assert_eq!(passed.credential_test.status, CheckStatus::Passed);
    assert_eq!(passed.credential_status, CredentialStatus::Valid);
    let rejected = check_update(&current, CheckKind::Credential, Some(ProblemCode::ProviderCredentialInvalid), CredentialStatus::Invalid, "t".to_owned())
        .expect("updated");
    assert_eq!(rejected.credential_test.status, CheckStatus::Failed);
    assert_eq!(rejected.credential_test.safe_problem_code, Some(ProblemCode::ProviderCredentialInvalid));
}

#[test]
fn runtime_problems_are_remapped_per_route() {
    assert_eq!(
        runtime_problem(ProblemCode::ProviderCredentialExpired, ProviderRoute::ReadProviderHealth),
        ProblemCode::ProviderUnavailable
    );
    assert_eq!(
        runtime_problem(ProblemCode::ProviderRateLimited, ProviderRoute::ConfigureProviderCredential),
        ProblemCode::ProviderUnavailable
    );
    assert_eq!(
        runtime_problem(ProblemCode::ProviderCredentialInvalid, ProviderRoute::ConfigureProviderCredential),
        ProblemCode::ProviderCredentialInvalid
    );
    assert_eq!(
        runtime_problem(ProblemCode::ProviderRateLimited, ProviderRoute::TestProviderCredential),
        ProblemCode::ProviderRateLimited
    );
    assert_eq!(invalid_path(ProviderRoute::ConfigureProviderCredential), ProblemCode::ValidationFailed);
    assert_eq!(invalid_path(ProviderRoute::ReadProviderHealth), ProblemCode::ProviderRouteUnavailable);
    assert_eq!(state_problem(StatePortError::Unavailable), ProblemCode::StorageUnavailable);
    assert_eq!(state_problem(StatePortError::RevisionConflict), ProblemCode::IntegrityFailed);
}

#[test]
fn secrets_and_sources() {
    assert!(valid_provider_secret(b"google-books-secret"));
    assert!(!valid_provider_secret(b""));
    assert!(!valid_provider_secret(b"has space"));
    assert!(!valid_provider_secret(&[b'a'; 4097]));
    assert!(valid_provider_secret(&[b'a'; 4096]));
    assert!(is_read_only_source(VaultSource::Environment));
    assert!(is_read_only_source(VaultSource::OperatorSecretMount));
    assert!(!is_read_only_source(VaultSource::CredentialStore));
}

#[test]
fn state_lookup_first_for_operations_last_for_inventory() {
    let mut a = state(1);
    let mut b = state(2);
    a.capability_id = "metadata.read".to_owned();
    b.capability_id = "metadata.read".to_owned();
    let mut other = state(3);
    other.provider_id = "tvdb".to_owned();
    let states = vec![other, a, b];
    assert_eq!(find_state(&states, "tmdb", "metadata.read"), Some(1));
    assert_eq!(inventory_state(&states, "tmdb", "metadata.read"), Some(2));
    assert_eq!(find_state(&states, "tmdb", "metadata.search"), None);
    assert_eq!(inventory_state(&states, "kitsu", "metadata.read"), None);
}

#[test]
fn browser_inventory_is_not_actionable() {
    let spec = spec("metadata.read", CredentialRequirement::ApiKey, true);
    let mut caps = vec![capability_dto(true, &spec, None, Ok(VaultSource::Absent))];
    assert!(caps[0].writable && caps[0].testable);
    restrict_for_browser(&mut caps);
    assert!(!caps[0].writable && !caps[0].testable);
    assert_eq!(caps[0].capability_id, "metadata.read");
}

#[test]
fn descriptor_support_flags() {
    assert_eq!(descriptor_support("full", "not_supported"), (true, false));
    assert_eq!(descriptor_support("unavailable", "partial"), (false, true));
}

#[test]
fn vault_plans_refuse_read_only_sources() {
    assert_eq!(vault_write_for(VaultSource::Absent), Ok(VaultWrite::Store));
    assert_eq!(vault_write_for(VaultSource::CredentialStore), Ok(VaultWrite::Replace));
    assert_eq!(
        vault_write_for(VaultSource::Environment),
        Err(ProblemCode::ProviderCredentialInvalid)
    );
    assert_eq!(vault_revoke_for(VaultSource::Absent), Ok(false));
    assert_eq!(vault_revoke_for(VaultSource::CredentialStore), Ok(true));
    assert_eq!(
        vault_revoke_for(VaultSource::OperatorSecretMount),
        Err(ProblemCode::ProviderCredentialInvalid)
    );
}

#[test]
fn inventory_answers_are_private_and_never_stored() {
    let headers = fasti_api::providers::inventory_response_headers();
    assert_eq!(headers.len(), 1);
    assert_eq!(headers[0].name, "cache-control");
    assert_eq!(headers[0].value, "private, no-store");
}
