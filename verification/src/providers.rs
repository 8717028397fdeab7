//! The provider inventory and credential rules: how a capability's stored
//! state and its credential source are reported, which capabilities a
//! client may configure, and the state transitions of configuring,
//! removing and checking a provider credential.

use crate::browser_auth::{headers_view, ResponseHeader};
use crate::problem::ProblemCode;
use crate::text::{chars_of, string_from_chars};
use vstd::prelude::*;

verus! {

/// Longest provider credential secret, in bytes.
pub const MAX_PROVIDER_CREDENTIAL_BYTES: usize = 4096;

/// What a provider capability needs as a credential.
#[derive(Clone, Copy, Debug, PartialEq, Eq, Structural)]
pub enum CredentialRequirement {
    NoneRequired,
    OptionalApiKey,
    ApiKey,
    BearerToken,
    BasicAuth,
    Oauth2,
    UserAgentOnly,
    CustomHeader,
    OperatorSecretMount,
}

/// Where the credential vault finds a provider's credential.
#[derive(Clone, Copy, Debug, PartialEq, Eq, Structural)]
pub enum VaultSource {
    Absent,
    Environment,
    CredentialStore,
    OperatorSecretMount,
}

/// The stored status of a provider capability.
#[derive(Clone, Copy, Debug, PartialEq, Eq, Structural)]
pub enum CapabilityStatus {
    Available,
    Degraded,
    Disabled,
    Unavailable,
}

/// The stored status of a provider credential.
#[derive(Clone, Copy, Debug, PartialEq, Eq, Structural)]
pub enum CredentialStatus {
    Missing,
    NotRequired,
    Optional,
    StoredUnverified,
    Valid,
    Invalid,
    Expired,
    Unavailable,
    Revoked,
}

/// The outcome of the last health or credential check.
#[derive(Clone, Copy, Debug, PartialEq, Eq, Structural)]
pub enum CheckStatus {
    NeverRun,
    Passed,
    Failed,
    Unavailable,
}

/// The credential source a capability reports.
#[derive(Clone, Copy, Debug, PartialEq, Eq, Structural)]
pub enum CredentialSourceDto {
    Absent,
    Environment,
    CredentialStore,
    OperatorSecretMount,
}

/// The credential state a capability reports.
#[derive(Clone, Copy, Debug, PartialEq, Eq, Structural)]
pub enum CredentialStateDto {
    Missing,
    NotRequired,
    Optional,
    StoredUnverified,
    Valid,
    Invalid,
    Expired,
    Unavailable,
    Revoked,
}

/// The capability state a capability reports.
#[derive(Clone, Copy, Debug, PartialEq, Eq, Structural)]
pub enum CapabilityStateDto {
    Available,
    Degraded,
    Disabled,
    Unavailable,
}

/// The last health or credential check of a capability.
pub struct CheckMetadata {
    pub status: CheckStatus,
    /// RFC 3339 time of the check.
    pub checked_at: Option<String>,
    pub safe_problem_code: Option<ProblemCode>,
}

pub struct CheckView {
    pub status: CheckStatus,
    pub checked_at: Option<Seq<char>>,
    pub safe_problem_code: Option<ProblemCode>,
}

pub open spec fn opt_text(v: Option<String>) -> Option<Seq<char>> {
    match v {
        Some(s) => Some(s@),
        None => None,
    }
}

impl View for CheckMetadata {
    type V = CheckView;

    open spec fn view(&self) -> CheckView {
        CheckView {
            status: self.status,
            checked_at: opt_text(self.checked_at),
            safe_problem_code: self.safe_problem_code,
        }
    }
}

pub open spec fn never_run_view() -> CheckView {
    CheckView { status: CheckStatus::NeverRun, checked_at: None, safe_problem_code: None }
}

impl CheckMetadata {
    /// A check that has never run.
    pub fn never_run() -> (c: CheckMetadata)
        ensures
            c@ == never_run_view(),
    {
        CheckMetadata { status: CheckStatus::NeverRun, checked_at: None, safe_problem_code: None }
    }

    pub fn duplicate(&self) -> (c: CheckMetadata)
        ensures
            c@ == self@,
    {
        CheckMetadata {
            status: self.status,
            checked_at: clone_text(&self.checked_at),
            safe_problem_code: self.safe_problem_code,
        }
    }
}

fn clone_text(v: &Option<String>) -> (r: Option<String>)
    ensures
        opt_text(r) == opt_text(*v),
{
    match v {
        Some(s) => Some(s.clone()),
        None => None,
    }
}

/// The stored state of one provider capability in a workspace.
pub struct ProviderCapabilityState {
    pub provider_id: String,
    pub capability_id: String,
    pub capability_status: CapabilityStatus,
    pub capability_version: u64,
    pub credential_requirement: CredentialRequirement,
    pub credential_reference: Option<String>,
    pub credential_status: CredentialStatus,
    pub configuration_digest: String,
    pub health: CheckMetadata,
    pub credential_test: CheckMetadata,
}

pub struct StateView {
    pub provider_id: Seq<char>,
    pub capability_id: Seq<char>,
    pub capability_status: CapabilityStatus,
    pub capability_version: u64,
    pub credential_requirement: CredentialRequirement,
    pub credential_reference: Option<Seq<char>>,
    pub credential_status: CredentialStatus,
    pub configuration_digest: Seq<char>,
    pub health: CheckView,
    pub credential_test: CheckView,
}

impl View for ProviderCapabilityState {
    type V = StateView;

    open spec fn view(&self) -> StateView {
        StateView {
            provider_id: self.provider_id@,
            capability_id: self.capability_id@,
            capability_status: self.capability_status,
            capability_version: self.capability_version,
            credential_requirement: self.credential_requirement,
            credential_reference: opt_text(self.credential_reference),
            credential_status: self.credential_status,
            configuration_digest: self.configuration_digest@,
            health: self.health@,
            credential_test: self.credential_test@,
        }
    }
}

/// A capability a provider declares.
pub struct CapabilitySpec {
    pub capability_id: String,
    pub credential_requirement: CredentialRequirement,
    pub credential_test: bool,
}

/// The credential source a capability reports, whether the vault could
/// answer, and whether a credential is present. `lookup` is the vault's
/// answer for the state's credential reference, asked only when there is
/// one; `Err` means the vault could not answer.
pub open spec fn source_report(has_reference: bool, lookup: Result<VaultSource, ()>) -> (
    CredentialSourceDto,
    bool,
    bool,
) {
    if !has_reference {
        (CredentialSourceDto::Absent, true, false)
    } else {
        match lookup {
            Ok(VaultSource::Environment) => (CredentialSourceDto::Environment, true, true),
            Ok(VaultSource::CredentialStore) => (CredentialSourceDto::CredentialStore, true, true),
            Ok(VaultSource::OperatorSecretMount) => (
                CredentialSourceDto::OperatorSecretMount,
                true,
                true,
            ),
            Ok(VaultSource::Absent) => (CredentialSourceDto::Absent, true, false),
            Err(()) => (CredentialSourceDto::Absent, false, false),
        }
    }
}

/// The credential source report of a capability.
pub fn credential_source(has_reference: bool, lookup: Result<VaultSource, ()>) -> (r: (
    CredentialSourceDto,
    bool,
    bool,
))
    ensures
        r == source_report(has_reference, lookup),
{
    if !has_reference {
        return (CredentialSourceDto::Absent, true, false);
    }
    match lookup {
        Ok(VaultSource::Environment) => (CredentialSourceDto::Environment, true, true),
        Ok(VaultSource::CredentialStore) => (CredentialSourceDto::CredentialStore, true, true),
        Ok(VaultSource::OperatorSecretMount) => (CredentialSourceDto::OperatorSecretMount, true, true),
        Ok(VaultSource::Absent) => (CredentialSourceDto::Absent, true, false),
        Err(()) => (CredentialSourceDto::Absent, false, false),
    }
}

/// Whether a requirement needs no credential at all.
pub open spec fn needs_no_credential(r: CredentialRequirement) -> bool {
    r == CredentialRequirement::NoneRequired || r == CredentialRequirement::UserAgentOnly
}

/// The credential state a requirement implies when nothing is stored.
pub open spec fn requirement_state(r: CredentialRequirement) -> CredentialStateDto {
    if needs_no_credential(r) {
        CredentialStateDto::NotRequired
    } else if r == CredentialRequirement::OptionalApiKey {
        CredentialStateDto::Optional
    } else {
        CredentialStateDto::Missing
    }
}

pub open spec fn status_state(s: CredentialStatus) -> CredentialStateDto {
    match s {
        CredentialStatus::Missing => CredentialStateDto::Missing,
        CredentialStatus::NotRequired => CredentialStateDto::NotRequired,
        CredentialStatus::Optional => CredentialStateDto::Optional,
        CredentialStatus::StoredUnverified => CredentialStateDto::StoredUnverified,
        CredentialStatus::Valid => CredentialStateDto::Valid,
        CredentialStatus::Invalid => CredentialStateDto::Invalid,
        CredentialStatus::Expired => CredentialStateDto::Expired,
        CredentialStatus::Unavailable => CredentialStateDto::Unavailable,
        CredentialStatus::Revoked => CredentialStateDto::Revoked,
    }
}

/// The credential state a capability reports: unavailable when the vault
/// cannot answer; missing when a credential is required by the stored
/// status but none is present; otherwise the stored status, or what the
/// requirement implies when nothing is stored.
pub open spec fn credential_state_report(
    vault_available: bool,
    present: bool,
    status: Option<CredentialStatus>,
    requirement: CredentialRequirement,
) -> CredentialStateDto {
    if !vault_available {
        CredentialStateDto::Unavailable
    } else {
        match status {
            None => requirement_state(requirement),
            Some(s) => if !present && s != CredentialStatus::NotRequired && s
                != CredentialStatus::Optional {
                CredentialStateDto::Missing
            } else {
                status_state(s)
            },
        }
    }
}

/// The capability state a capability reports: degraded when the vault
/// cannot answer, unavailable when it is stored available without a
/// credential, otherwise the stored status.
pub open spec fn capability_state_report(
    vault_available: bool,
    present: bool,
    status: Option<CapabilityStatus>,
) -> CapabilityStateDto {
    if !vault_available {
        CapabilityStateDto::Degraded
    } else {
        match status {
            Some(CapabilityStatus::Available) => if present {
                CapabilityStateDto::Available
            } else {
                CapabilityStateDto::Unavailable
            },
            Some(CapabilityStatus::Degraded) => CapabilityStateDto::Degraded,
            Some(CapabilityStatus::Disabled) => CapabilityStateDto::Disabled,
            Some(CapabilityStatus::Unavailable) => CapabilityStateDto::Unavailable,
            None => CapabilityStateDto::Unavailable,
        }
    }
}

/// Whether a client may configure the capability's credential: the
/// provider runs here, the vault answers, the credential does not come
/// from the environment or an operator mount, and the capability needs
/// one.
pub open spec fn writable_report(
    runtime_available: bool,
    vault_available: bool,
    source: CredentialSourceDto,
    requirement: CredentialRequirement,
) -> bool {
    runtime_available && vault_available && source != CredentialSourceDto::Environment && source
        != CredentialSourceDto::OperatorSecretMount && !needs_no_credential(requirement)
}

/// The purpose text of a capability.
pub open spec fn purpose_text(capability_id: Seq<char>) -> Seq<char> {
    if capability_id == "metadata.search"@ {
        "Search provider metadata"@
    } else if capability_id == "metadata.read"@ {
        "Read provider metadata"@
    } else {
        "Use this provider capability"@
    }
}

/// A check as a capability reports it.
pub struct CheckDto {
    pub state: CheckStatus,
    pub checked_at: Option<String>,
    pub safe_problem_code: Option<String>,
}

pub struct CheckDtoView {
    pub state: CheckStatus,
    pub checked_at: Option<Seq<char>>,
    pub safe_problem_code: Option<Seq<char>>,
}

impl View for CheckDto {
    type V = CheckDtoView;

    open spec fn view(&self) -> CheckDtoView {
        CheckDtoView {
            state: self.state,
            checked_at: opt_text(self.checked_at),
            safe_problem_code: opt_text(self.safe_problem_code),
        }
    }
}

pub open spec fn check_report(c: CheckView) -> CheckDtoView {
    CheckDtoView {
        state: c.status,
        checked_at: c.checked_at,
        safe_problem_code: match c.safe_problem_code {
            Some(code) => Some(code.text()),
            None => None,
        },
    }
}

/// A check as a capability reports it.
pub fn check_dto(value: &CheckMetadata) -> (dto: CheckDto)
    ensures
        dto@ == check_report(value@),
{
    CheckDto {
        state: value.status,
        checked_at: clone_text(&value.checked_at),
        safe_problem_code: match value.safe_problem_code {
            Some(code) => Some(string_from_chars(&chars_of(code.as_str()))),
            None => None,
        },
    }
}

/// A provider capability as the inventory reports it.
pub struct CapabilityDto {
    pub capability_id: String,
    pub purpose: String,
    pub credential_requirement: CredentialRequirement,
    pub credential_state: CredentialStateDto,
    pub credential_source: CredentialSourceDto,
    pub state: CapabilityStateDto,
    pub version: u64,
    pub writable: bool,
    pub testable: bool,
    pub health: CheckDto,
    pub credential_test: CheckDto,
}

pub struct CapabilityDtoView {
    pub capability_id: Seq<char>,
    pub purpose: Seq<char>,
    pub credential_requirement: CredentialRequirement,
    pub credential_state: CredentialStateDto,
    pub credential_source: CredentialSourceDto,
    pub state: CapabilityStateDto,
    pub version: u64,
    pub writable: bool,
    pub testable: bool,
    pub health: CheckDtoView,
    pub credential_test: CheckDtoView,
}

impl View for CapabilityDto {
    type V = CapabilityDtoView;

    open spec fn view(&self) -> CapabilityDtoView {
        CapabilityDtoView {
            capability_id: self.capability_id@,
            purpose: self.purpose@,
            credential_requirement: self.credential_requirement,
            credential_state: self.credential_state,
            credential_source: self.credential_source,
            state: self.state,
            version: self.version,
            writable: self.writable,
            testable: self.testable,
            health: self.health@,
            credential_test: self.credential_test@,
        }
    }
}

pub open spec fn opt_state_view(state: Option<&ProviderCapabilityState>) -> Option<StateView> {
    match state {
        Some(s) => Some(s@),
        None => None,
    }
}

/// How a capability is reported, from the provider's availability, the
/// capability, its stored state when there is one, and the vault's answer
/// for the state's credential reference.
pub open spec fn capability_report(
    runtime_available: bool,
    capability_id: Seq<char>,
    requirement: CredentialRequirement,
    testable: bool,
    state: Option<StateView>,
    lookup: Result<VaultSource, ()>,
) -> CapabilityDtoView {
    let has_reference = state.is_some() && state.unwrap().credential_reference.is_some();
    let (source, vault_available, present) = source_report(has_reference, lookup);
    CapabilityDtoView {
        capability_id,
        purpose: purpose_text(capability_id),
        credential_requirement: requirement,
        credential_state: credential_state_report(
            vault_available,
            present,
            match state {
                Some(s) => Some(s.credential_status),
                None => None,
            },
            requirement,
        ),
        credential_source: source,
        state: capability_state_report(
            vault_available,
            present,
            match state {
                Some(s) => Some(s.capability_status),
                None => None,
            },
        ),
        version: match state {
            Some(s) => s.capability_version,
            None => 0,
        },
        writable: writable_report(runtime_available, vault_available, source, requirement),
        testable,
        health: match state {
            Some(s) => check_report(s.health),
            None => check_report(never_run_view()),
        },
        credential_test: match state {
            Some(s) => check_report(s.credential_test),
            None => check_report(never_run_view()),
        },
    }
}

fn is_text(s: &str, word: &str) -> (r: bool)
    ensures
        r == (s@ == word@),
{
    let a = chars_of(s);
    let b = chars_of(word);
    crate::text::chars_eq(&a, &b)
}

/// Reports one provider capability.
pub fn capability_dto(
    runtime_available: bool,
    spec: &CapabilitySpec,
    state: Option<&ProviderCapabilityState>,
    lookup: Result<VaultSource, ()>,
) -> (dto: CapabilityDto)
    ensures
        dto@ == capability_report(
            runtime_available,
            spec.capability_id@,
            spec.credential_requirement,
            spec.credential_test,
            opt_state_view(state),
            lookup,
        ),
{
    let has_reference = match state {
        Some(s) => s.credential_reference.is_some(),
        None => false,
    };
    let (source, vault_available, present) = credential_source(has_reference, lookup);
    let requirement = spec.credential_requirement;
    let no_credential = requirement == CredentialRequirement::NoneRequired || requirement
        == CredentialRequirement::UserAgentOnly;
    let credential_state = if !vault_available {
        CredentialStateDto::Unavailable
    } else {
        match state {
            None => if no_credential {
                CredentialStateDto::NotRequired
            } else if requirement == CredentialRequirement::OptionalApiKey {
                CredentialStateDto::Optional
            } else {
                CredentialStateDto::Missing
            },
            Some(s) => {
                let status = s.credential_status;
                if !present && status != CredentialStatus::NotRequired && status
                    != CredentialStatus::Optional {
                    CredentialStateDto::Missing
                } else {
                    match status {
                        CredentialStatus::Missing => CredentialStateDto::Missing,
                        CredentialStatus::NotRequired => CredentialStateDto::NotRequired,
                        CredentialStatus::Optional => CredentialStateDto::Optional,
                        CredentialStatus::StoredUnverified => CredentialStateDto::StoredUnverified,
                        CredentialStatus::Valid => CredentialStateDto::Valid,
                        CredentialStatus::Invalid => CredentialStateDto::Invalid,
                        CredentialStatus::Expired => CredentialStateDto::Expired,
                        CredentialStatus::Unavailable => CredentialStateDto::Unavailable,
                        CredentialStatus::Revoked => CredentialStateDto::Revoked,
                    }
                }
            },
        }
    };
    let capability_state = if !vault_available {
        CapabilityStateDto::Degraded
    } else {
        match state {
            Some(s) => match s.capability_status {
                CapabilityStatus::Available => if present {
                    CapabilityStateDto::Available
                } else {
                    CapabilityStateDto::Unavailable
                },
                CapabilityStatus::Degraded => CapabilityStateDto::Degraded,
                CapabilityStatus::Disabled => CapabilityStateDto::Disabled,
                CapabilityStatus::Unavailable => CapabilityStateDto::Unavailable,
            },
            None => CapabilityStateDto::Unavailable,
        }
    };
    let purpose = if is_text(spec.capability_id.as_str(), "metadata.search") {
        "Search provider metadata"
    } else if is_text(spec.capability_id.as_str(), "metadata.read") {
        "Read provider metadata"
    } else {
        "Use this provider capability"
    };
    let writable = runtime_available && vault_available && source != CredentialSourceDto::Environment
        && source != CredentialSourceDto::OperatorSecretMount && !no_credential;
    let never = CheckMetadata::never_run();
    let (version, health, credential_test) = match state {
        Some(s) => (s.capability_version, check_dto(&s.health), check_dto(&s.credential_test)),
        None => (0, check_dto(&never), check_dto(&never)),
    };
    CapabilityDto {
        capability_id: spec.capability_id.clone(),
        purpose: string_from_chars(&chars_of(purpose)),
        credential_requirement: requirement,
        credential_state,
        credential_source: source,
        state: capability_state,
        version,
        writable,
        testable: spec.credential_test,
        health,
        credential_test,
    }
}

/// A credential that comes from the environment or an operator-managed
/// secret mount is reported but never writable through the API.
pub proof fn lemma_read_only_sources_are_not_writable(
    runtime_available: bool,
    capability_id: Seq<char>,
    requirement: CredentialRequirement,
    testable: bool,
    state: Option<StateView>,
    lookup: Result<VaultSource, ()>,
)
    requires
        lookup == Ok::<VaultSource, ()>(VaultSource::Environment) || lookup == Ok::<
            VaultSource,
            (),
        >(VaultSource::OperatorSecretMount),
        state.is_some() && state.unwrap().credential_reference.is_some(),
    ensures
        !capability_report(
            runtime_available,
            capability_id,
            requirement,
            testable,
            state,
            lookup,
        ).writable,
        capability_report(
            runtime_available,
            capability_id,
            requirement,
            testable,
            state,
            lookup,
        ).credential_source != CredentialSourceDto::Absent,
{
}

/// A capability of a provider that does not run here, or whose credential
/// vault cannot answer, is never writable.
pub proof fn lemma_unavailable_runtime_or_vault_is_not_writable(
    runtime_available: bool,
    capability_id: Seq<char>,
    requirement: CredentialRequirement,
    testable: bool,
    state: Option<StateView>,
    lookup: Result<VaultSource, ()>,
)
    requires
        !runtime_available || (state.is_some() && state.unwrap().credential_reference.is_some()
            && lookup is Err),
    ensures
        !capability_report(
            runtime_available,
            capability_id,
            requirement,
            testable,
            state,
            lookup,
        ).writable,
{
}


/// Why provider state storage refused an operation.
#[derive(Clone, Copy, Debug, PartialEq, Eq, Structural)]
pub enum StatePortError {
    Unavailable,
    Corrupt,
    RevisionConflict,
}

/// The problem a provider state storage failure is answered with.
pub fn state_problem(error: StatePortError) -> (code: ProblemCode)
    ensures
        code == match error {
            StatePortError::Unavailable => ProblemCode::StorageUnavailable,
            _ => ProblemCode::IntegrityFailed,
        },
{
    match error {
        StatePortError::Unavailable => ProblemCode::StorageUnavailable,
        StatePortError::Corrupt => ProblemCode::IntegrityFailed,
        StatePortError::RevisionConflict => ProblemCode::IntegrityFailed,
    }
}

/// The successor of `current`: its identity and requirement kept, its
/// version one higher, the rest as given; none when the version would
/// overflow.
pub open spec fn next_view(
    current: StateView,
    capability_status: CapabilityStatus,
    credential_reference: Option<Seq<char>>,
    credential_status: CredentialStatus,
    configuration_digest: Seq<char>,
    health: CheckView,
    credential_test: CheckView,
) -> Option<StateView> {
    if current.capability_version == u64::MAX {
        None
    } else {
        Some(
            StateView {
                provider_id: current.provider_id,
                capability_id: current.capability_id,
                capability_status,
                capability_version: (current.capability_version + 1) as u64,
                credential_requirement: current.credential_requirement,
                credential_reference,
                credential_status,
                configuration_digest,
                health,
                credential_test,
            },
        )
    }
}

/// The next version of a capability state.
pub fn next_state(
    current: &ProviderCapabilityState,
    capability_status: CapabilityStatus,
    credential_reference: Option<String>,
    credential_status: CredentialStatus,
    configuration_digest: String,
    health: CheckMetadata,
    credential_test: CheckMetadata,
) -> (r: Result<ProviderCapabilityState, StatePortError>)
    ensures
        match r {
            Ok(s) => next_view(
                current@,
                capability_status,
                opt_text(credential_reference),
                credential_status,
                configuration_digest@,
                health@,
                credential_test@,
            ) == Some(s@),
            Err(e) => e == StatePortError::Corrupt && next_view(
                current@,
                capability_status,
                opt_text(credential_reference),
                credential_status,
                configuration_digest@,
                health@,
                credential_test@,
            ).is_none(),
        },
{
    if current.capability_version == u64::MAX {
        return Err(StatePortError::Corrupt);
    }
    Ok(
        ProviderCapabilityState {
            provider_id: current.provider_id.clone(),
            capability_id: current.capability_id.clone(),
            capability_status,
            capability_version: current.capability_version + 1,
            credential_requirement: current.credential_requirement,
            credential_reference,
            credential_status,
            configuration_digest,
            health,
            credential_test,
        },
    )
}

/// The state a capability passes through while its credential is being
/// written: disabled, pointing at the new reference, unverified, with
/// fresh checks.
pub open spec fn configure_pending_view(current: StateView, reference: Seq<char>, digest: Seq<char>) -> Option<
    StateView,
> {
    next_view(
        current,
        CapabilityStatus::Disabled,
        Some(reference),
        CredentialStatus::StoredUnverified,
        digest,
        never_run_view(),
        never_run_view(),
    )
}

/// The state that puts `prior` back after a failed vault write.
pub open spec fn restore_view(pending: StateView, prior: StateView) -> Option<StateView> {
    next_view(
        pending,
        prior.capability_status,
        prior.credential_reference,
        prior.credential_status,
        prior.configuration_digest,
        prior.health,
        prior.credential_test,
    )
}

/// The state after a credential was written: available and unverified.
pub open spec fn configure_complete_view(pending: StateView, reference: Seq<char>) -> Option<StateView> {
    next_view(
        pending,
        CapabilityStatus::Available,
        Some(reference),
        CredentialStatus::StoredUnverified,
        pending.configuration_digest,
        never_run_view(),
        never_run_view(),
    )
}

/// The state a capability passes through while its credential is being
/// revoked: disabled, everything else kept.
pub open spec fn remove_pending_view(current: StateView, reference: Seq<char>) -> Option<StateView> {
    next_view(
        current,
        CapabilityStatus::Disabled,
        Some(reference),
        current.credential_status,
        current.configuration_digest,
        current.health,
        current.credential_test,
    )
}

/// The state after a credential was revoked: unavailable, without a
/// reference, optional or missing by the requirement, its credential test
/// forgotten.
pub open spec fn remove_complete_view(pending: StateView) -> Option<StateView> {
    next_view(
        pending,
        CapabilityStatus::Unavailable,
        None,
        if pending.credential_requirement == CredentialRequirement::OptionalApiKey {
            CredentialStatus::Optional
        } else {
            CredentialStatus::Missing
        },
        pending.configuration_digest,
        pending.health,
        never_run_view(),
    )
}

/// The pending state of a credential write.
pub fn configure_pending(current: &ProviderCapabilityState, reference: &String, digest: String) -> (r: Result<
    ProviderCapabilityState,
    StatePortError,
>)
    ensures
        match r {
            Ok(s) => configure_pending_view(current@, reference@, digest@) == Some(s@),
            Err(e) => e == StatePortError::Corrupt && configure_pending_view(
                current@,
                reference@,
                digest@,
            ).is_none(),
        },
{
    next_state(
        current,
        CapabilityStatus::Disabled,
        Some(reference.clone()),
        CredentialStatus::StoredUnverified,
        digest,
        CheckMetadata::never_run(),
        CheckMetadata::never_run(),
    )
}

/// Puts `prior` back on top of `pending`.
pub fn restore_state(pending: &ProviderCapabilityState, prior: &ProviderCapabilityState) -> (r: Result<
    ProviderCapabilityState,
    StatePortError,
>)
    ensures
        match r {
            Ok(s) => restore_view(pending@, prior@) == Some(s@),
            Err(e) => e == StatePortError::Corrupt && restore_view(pending@, prior@).is_none(),
        },
{
    next_state(
        pending,
        prior.capability_status,
        clone_text(&prior.credential_reference),
        prior.credential_status,
        prior.configuration_digest.clone(),
        prior.health.duplicate(),
        prior.credential_test.duplicate(),
    )
}

/// The state after a credential write succeeded.
pub fn configure_complete(pending: &ProviderCapabilityState, reference: &String) -> (r: Result<
    ProviderCapabilityState,
    StatePortError,
>)
    ensures
        match r {
            Ok(s) => configure_complete_view(pending@, reference@) == Some(s@),
            Err(e) => e == StatePortError::Corrupt && configure_complete_view(
                pending@,
                reference@,
            ).is_none(),
        },
{
    next_state(
        pending,
        CapabilityStatus::Available,
        Some(reference.clone()),
        CredentialStatus::StoredUnverified,
        pending.configuration_digest.clone(),
        CheckMetadata::never_run(),
        CheckMetadata::never_run(),
    )
}

/// The pending state of a credential revocation.
pub fn remove_pending(current: &ProviderCapabilityState, reference: &String) -> (r: Result<
    ProviderCapabilityState,
    StatePortError,
>)
    ensures
        match r {
            Ok(s) => remove_pending_view(current@, reference@) == Some(s@),
            Err(e) => e == StatePortError::Corrupt && remove_pending_view(
                current@,
                reference@,
            ).is_none(),
        },
{
    next_state(
        current,
        CapabilityStatus::Disabled,
        Some(reference.clone()),
        current.credential_status,
        current.configuration_digest.clone(),
        current.health.duplicate(),
        current.credential_test.duplicate(),
    )
}

/// The state after a revocation succeeded.
pub fn remove_complete(pending: &ProviderCapabilityState) -> (r: Result<
    ProviderCapabilityState,
    StatePortError,
>)
    ensures
        match r {
            Ok(s) => remove_complete_view(pending@) == Some(s@),
            Err(e) => e == StatePortError::Corrupt && remove_complete_view(pending@).is_none(),
        },
{
    let status = if pending.credential_requirement == CredentialRequirement::OptionalApiKey {
        CredentialStatus::Optional
    } else {
        CredentialStatus::Missing
    };
    next_state(
        pending,
        CapabilityStatus::Unavailable,
        None,
        status,
        pending.configuration_digest.clone(),
        pending.health.duplicate(),
        CheckMetadata::never_run(),
    )
}

/// `current` with its version raised by `by` and nothing else changed.
pub open spec fn bumped(current: StateView, by: int) -> StateView {
    StateView { capability_version: (current.capability_version + by) as u64, ..current }
}

/// A failed credential write leaves every capability as it was, two
/// versions later: the pending state and the restore are the only writes.
pub proof fn lemma_failed_configure_restores_state(
    current: StateView,
    reference: Seq<char>,
    digest: Seq<char>,
)
    requires
        current.capability_version + 2 <= u64::MAX,
    ensures
        configure_pending_view(current, reference, digest).is_some(),
        restore_view(configure_pending_view(current, reference, digest).unwrap(), current) == Some(
            bumped(current, 2),
        ),
{
}

/// A failed revocation leaves every capability as it was, two versions
/// later.
pub proof fn lemma_failed_remove_restores_state(current: StateView, reference: Seq<char>)
    requires
        current.capability_version + 2 <= u64::MAX,
    ensures
        remove_pending_view(current, reference).is_some(),
        restore_view(remove_pending_view(current, reference).unwrap(), current) == Some(
            bumped(current, 2),
        ),
{
}

/// A provider check: of the service's health, or of the stored credential.
#[derive(Clone, Copy, Debug, PartialEq, Eq, Structural)]
pub enum CheckKind {
    Health,
    Credential,
}

/// The check record of an outcome: passed, unavailable when the provider
/// was unreachable, failed otherwise.
pub open spec fn check_record(outcome: Option<ProblemCode>, checked_at: Seq<char>) -> CheckView {
    CheckView {
        status: match outcome {
            None => CheckStatus::Passed,
            Some(ProblemCode::ProviderUnavailable) => CheckStatus::Unavailable,
            Some(_) => CheckStatus::Failed,
        },
        checked_at: Some(checked_at),
        safe_problem_code: outcome,
    }
}

/// The state after a check with `outcome` (`None` when it passed): the
/// capability available or degraded, the credential status as the check
/// left it, and the check of `kind` recorded.
pub open spec fn check_update_view(
    current: StateView,
    kind: CheckKind,
    outcome: Option<ProblemCode>,
    credential_status: CredentialStatus,
    checked_at: Seq<char>,
) -> Option<StateView> {
    let record = check_record(outcome, checked_at);
    next_view(
        current,
        if outcome.is_none() {
            CapabilityStatus::Available
        } else {
            CapabilityStatus::Degraded
        },
        current.credential_reference,
        credential_status,
        current.configuration_digest,
        if kind == CheckKind::Health {
            record
        } else {
            current.health
        },
        if kind == CheckKind::Credential {
            record
        } else {
            current.credential_test
        },
    )
}

/// Records a check. `credential_status` is the credential status the
/// check leaves, `checked_at` its RFC 3339 time.
pub fn check_update(
    current: &ProviderCapabilityState,
    kind: CheckKind,
    outcome: Option<ProblemCode>,
    credential_status: CredentialStatus,
    checked_at: String,
) -> (r: Result<ProviderCapabilityState, StatePortError>)
    ensures
        match r {
            Ok(s) => check_update_view(current@, kind, outcome, credential_status, checked_at@)
                == Some(s@),
            Err(e) => e == StatePortError::Corrupt && check_update_view(
                current@,
                kind,
                outcome,
                credential_status,
                checked_at@,
            ).is_none(),
        },
{
    let status = match outcome {
        None => CheckStatus::Passed,
        Some(ProblemCode::ProviderUnavailable) => CheckStatus::Unavailable,
        Some(_) => CheckStatus::Failed,
    };
    let health = if kind == CheckKind::Health {
        CheckMetadata { status, checked_at: Some(checked_at.clone()), safe_problem_code: outcome }
    } else {
        current.health.duplicate()
    };
    let credential_test = if kind == CheckKind::Credential {
        CheckMetadata { status, checked_at: Some(checked_at), safe_problem_code: outcome }
    } else {
        current.credential_test.duplicate()
    };
    next_state(
        current,
        if outcome.is_none() {
            CapabilityStatus::Available
        } else {
            CapabilityStatus::Degraded
        },
        clone_text(&current.credential_reference),
        credential_status,
        current.configuration_digest.clone(),
        health,
        credential_test,
    )
}

/// The state a capability has before anything was stored for it: version
/// 1, available exactly when the vault holds a credential, and a
/// credential status that says what the requirement implies otherwise.
pub open spec fn initial_view(
    provider_id: Seq<char>,
    capability_id: Seq<char>,
    requirement: CredentialRequirement,
    reference: Seq<char>,
    source: VaultSource,
    digest: Seq<char>,
) -> StateView {
    let present = source != VaultSource::Absent;
    StateView {
        provider_id,
        capability_id,
        capability_status: if present {
            CapabilityStatus::Available
        } else {
            CapabilityStatus::Unavailable
        },
        capability_version: 1,
        credential_requirement: requirement,
        credential_reference: if present {
            Some(reference)
        } else {
            None
        },
        credential_status: if present {
            CredentialStatus::StoredUnverified
        } else if needs_no_credential(requirement) {
            CredentialStatus::NotRequired
        } else if requirement == CredentialRequirement::OptionalApiKey {
            CredentialStatus::Optional
        } else {
            CredentialStatus::Missing
        },
        configuration_digest: digest,
        health: never_run_view(),
        credential_test: never_run_view(),
    }
}

/// The initial state of a capability. `reference` is the provider's vault
/// reference, `source` where the vault finds it, `digest` the runtime's
/// configuration digest of the capability.
pub fn initial_state(
    provider_id: &str,
    spec: &CapabilitySpec,
    reference: String,
    source: VaultSource,
    digest: String,
) -> (s: ProviderCapabilityState)
    ensures
        s@ == initial_view(
            provider_id@,
            spec.capability_id@,
            spec.credential_requirement,
            reference@,
            source,
            digest@,
        ),
{
    let present = source != VaultSource::Absent;
    let requirement = spec.credential_requirement;
    ProviderCapabilityState {
        provider_id: string_from_chars(&chars_of(provider_id)),
        capability_id: spec.capability_id.clone(),
        capability_status: if present {
            CapabilityStatus::Available
        } else {
            CapabilityStatus::Unavailable
        },
        capability_version: 1,
        credential_requirement: requirement,
        credential_reference: if present {
            Some(reference)
        } else {
            None
        },
        credential_status: if present {
            CredentialStatus::StoredUnverified
        } else if requirement == CredentialRequirement::NoneRequired || requirement
            == CredentialRequirement::UserAgentOnly {
            CredentialStatus::NotRequired
        } else if requirement == CredentialRequirement::OptionalApiKey {
            CredentialStatus::Optional
        } else {
            CredentialStatus::Missing
        },
        configuration_digest: digest,
        health: CheckMetadata::never_run(),
        credential_test: CheckMetadata::never_run(),
    }
}

/// The provider routes whose failures are mapped.
#[derive(Clone, Copy, Debug, PartialEq, Eq, Structural)]
pub enum ProviderRoute {
    ListProviders,
    ConfigureProviderCredential,
    TestProviderCredential,
    ReadProviderHealth,
}

/// The problem a provider runtime failure is answered with: a health read
/// never reveals the credential's condition, and a credential write
/// reveals only that the credential was refused or the provider is
/// unavailable.
pub open spec fn runtime_problem_code(code: ProblemCode, route: ProviderRoute) -> ProblemCode {
    if route == ProviderRoute::ReadProviderHealth && (code == ProblemCode::ProviderCredentialMissing
        || code == ProblemCode::ProviderCredentialInvalid || code
        == ProblemCode::ProviderCredentialExpired) {
        ProblemCode::ProviderUnavailable
    } else if route == ProviderRoute::ConfigureProviderCredential && !(code
        == ProblemCode::ProviderCredentialInvalid || code == ProblemCode::ProviderUnavailable) {
        ProblemCode::ProviderUnavailable
    } else {
        code
    }
}

/// Maps a provider runtime failure to the route's problem.
pub fn runtime_problem(code: ProblemCode, route: ProviderRoute) -> (r: ProblemCode)
    ensures
        r == runtime_problem_code(code, route),
{
    let mut result = code;
    if route == ProviderRoute::ReadProviderHealth && (code == ProblemCode::ProviderCredentialMissing
        || code == ProblemCode::ProviderCredentialInvalid || code
        == ProblemCode::ProviderCredentialExpired) {
        result = ProblemCode::ProviderUnavailable;
    }
    if route == ProviderRoute::ConfigureProviderCredential && !(result
        == ProblemCode::ProviderCredentialInvalid || result == ProblemCode::ProviderUnavailable) {
        result = ProblemCode::ProviderUnavailable;
    }
    result
}

/// The problem for a provider or capability the runtime does not declare:
/// a validation failure on credential writes, an unavailable route
/// elsewhere.
pub fn invalid_path(route: ProviderRoute) -> (r: ProblemCode)
    ensures
        r == if route == ProviderRoute::ConfigureProviderCredential {
            ProblemCode::ValidationFailed
        } else {
            ProblemCode::ProviderRouteUnavailable
        },
{
    if route != ProviderRoute::ConfigureProviderCredential {
        ProblemCode::ProviderRouteUnavailable
    } else {
        ProblemCode::ValidationFailed
    }
}

/// Whether a submitted credential is 1 to 4096 visible ASCII bytes.
pub open spec fn valid_secret(bytes: Seq<u8>) -> bool {
    0 < bytes.len() <= MAX_PROVIDER_CREDENTIAL_BYTES && forall|i: int|
        0 <= i < bytes.len() ==> 0x21 <= #[trigger] bytes[i] <= 0x7e
}

/// Checks a submitted credential.
pub fn valid_provider_secret(bytes: &[u8]) -> (r: bool)
    ensures
        r == valid_secret(bytes@),
{
    if bytes.len() == 0 || bytes.len() > MAX_PROVIDER_CREDENTIAL_BYTES {
        return false;
    }
    let mut i: usize = 0;
    while i < bytes.len()
        invariant
            i <= bytes@.len(),
            forall|j: int| 0 <= j < i ==> 0x21 <= #[trigger] bytes@[j] <= 0x7e,
        decreases bytes@.len() - i,
    {
        if bytes[i] < 0x21 || bytes[i] > 0x7e {
            return false;
        }
        i = i + 1;
    }
    true
}

/// Whether the vault's source is managed outside the API, so that a
/// credential there may be neither written nor revoked through it.
pub fn is_read_only_source(source: VaultSource) -> (r: bool)
    ensures
        r == (source == VaultSource::Environment || source == VaultSource::OperatorSecretMount),
{
    source == VaultSource::Environment || source == VaultSource::OperatorSecretMount
}

/// The position of the first stored state of `provider_id`'s capability
/// `capability_id`.
pub open spec fn first_state_of(states: Seq<StateView>, provider_id: Seq<char>, capability_id: Seq<char>) -> Option<
    int,
>
    decreases states.len(),
{
    if states.len() == 0 {
        None
    } else if states[0].provider_id == provider_id && states[0].capability_id == capability_id {
        Some(0)
    } else {
        match first_state_of(states.drop_first(), provider_id, capability_id) {
            Some(i) => Some(i + 1),
            None => None,
        }
    }
}

pub open spec fn states_view(v: Seq<ProviderCapabilityState>) -> Seq<StateView> {
    Seq::new(v.len(), |i: int| v[i]@)
}

proof fn lemma_first_state_of(states: Seq<StateView>, provider_id: Seq<char>, capability_id: Seq<char>, k: int)
    requires
        0 <= k <= states.len(),
        forall|j: int|
            0 <= j < k ==> !(#[trigger] states[j].provider_id == provider_id && states[j].capability_id
                == capability_id),
    ensures
        k < states.len() && states[k].provider_id == provider_id && states[k].capability_id
            == capability_id ==> first_state_of(states, provider_id, capability_id) == Some(k),
        k == states.len() ==> first_state_of(states, provider_id, capability_id).is_none(),
    decreases k,
{
    if k > 0 {
        lemma_first_state_of(states.drop_first(), provider_id, capability_id, k - 1);
    }
}

/// Finds the stored state an operation works on: the first one of the
/// capability.
pub fn find_state(states: &Vec<ProviderCapabilityState>, provider_id: &str, capability_id: &str) -> (r: Option<usize>)
    ensures
        match r {
            Some(i) => first_state_of(states_view(states@), provider_id@, capability_id@) == Some(
                i as int,
            ),
            None => first_state_of(states_view(states@), provider_id@, capability_id@).is_none(),
        },
{
    let ghost sv = states_view(states@);
    let p = chars_of(provider_id);
    let c = chars_of(capability_id);
    let mut i: usize = 0;
    while i < states.len()
        invariant
            i <= states@.len(),
            sv == states_view(states@),
            p@ == provider_id@,
            c@ == capability_id@,
            forall|j: int|
                0 <= j < i ==> !(#[trigger] sv[j].provider_id == provider_id@ && sv[j].capability_id
                    == capability_id@),
        decreases states@.len() - i,
    {
        let sp = chars_of(states[i].provider_id.as_str());
        let sc = chars_of(states[i].capability_id.as_str());
        assert(sv[i as int] == states@[i as int]@);
        if crate::text::chars_eq(&sp, &p) && crate::text::chars_eq(&sc, &c) {
            proof {
                lemma_first_state_of(sv, provider_id@, capability_id@, i as int);
            }
            return Some(i);
        }
        i = i + 1;
    }
    proof {
        lemma_first_state_of(sv, provider_id@, capability_id@, i as int);
    }
    None
}

/// A capability as a browser session sees it in the inventory: never
/// writable and never testable, since credential and health operations
/// are bearer-only.
pub open spec fn browser_view(dto: CapabilityDtoView) -> CapabilityDtoView {
    CapabilityDtoView { writable: false, testable: false, ..dto }
}

/// The headers of every provider inventory answer: it is private to the
/// caller and never stored.
pub open spec fn inventory_headers_text() -> Seq<(Seq<char>, Seq<char>)> {
    seq![("cache-control"@, "private, no-store"@)]
}

/// The response headers of the provider inventory.
pub fn inventory_response_headers() -> (headers: Vec<ResponseHeader>)
    ensures
        headers_view(headers@) == inventory_headers_text(),
{
    let mut headers: Vec<ResponseHeader> = Vec::new();
    headers.push(
        ResponseHeader {
            name: string_from_chars(&chars_of("cache-control")),
            value: string_from_chars(&chars_of("private, no-store")),
        },
    );
    assert(headers_view(headers@) =~= inventory_headers_text());
    headers
}

/// Restricts an inventory for a browser session.
pub fn restrict_for_browser(capabilities: &mut Vec<CapabilityDto>)
    ensures
        final(capabilities)@.len() == old(capabilities)@.len(),
        forall|i: int|
            0 <= i < final(capabilities)@.len() ==> #[trigger] final(capabilities)@[i]@ == browser_view(
                old(capabilities)@[i]@,
            ),
{
    let mut i: usize = 0;
    while i < capabilities.len()
        invariant
            i <= capabilities@.len(),
            capabilities@.len() == old(capabilities)@.len(),
            forall|j: int|
                0 <= j < i ==> #[trigger] capabilities@[j]@ == browser_view(old(capabilities)@[j]@),
            forall|j: int| i <= j < capabilities@.len() ==> #[trigger] capabilities@[j] == old(
                capabilities,
            )@[j],
        decreases capabilities@.len() - i,
    {
        let mut item = capabilities.remove(i);
        item.writable = false;
        item.testable = false;
        capabilities.insert(i, item);
        i = i + 1;
    }
}


/// The position of the last stored state of a capability: the one an
/// inventory indexed by provider and capability keeps.
pub open spec fn last_state_of(states: Seq<StateView>, provider_id: Seq<char>, capability_id: Seq<char>) -> Option<
    int,
>
    decreases states.len(),
{
    if states.len() == 0 {
        None
    } else if states.last().provider_id == provider_id && states.last().capability_id
        == capability_id {
        Some(states.len() - 1)
    } else {
        last_state_of(states.drop_last(), provider_id, capability_id)
    }
}

/// Finds the stored state the inventory reports for a capability.
pub fn inventory_state(states: &Vec<ProviderCapabilityState>, provider_id: &str, capability_id: &str) -> (r: Option<usize>)
    ensures
        match r {
            Some(i) => last_state_of(states_view(states@), provider_id@, capability_id@) == Some(
                i as int,
            ),
            None => last_state_of(states_view(states@), provider_id@, capability_id@).is_none(),
        },
{
    let ghost sv = states_view(states@);
    let p = chars_of(provider_id);
    let c = chars_of(capability_id);
    let mut i: usize = states.len();
    assert(sv.subrange(0, i as int) =~= sv);
    while i > 0
        invariant
            i <= states@.len(),
            sv == states_view(states@),
            p@ == provider_id@,
            c@ == capability_id@,
            last_state_of(sv, provider_id@, capability_id@) == last_state_of(
                sv.subrange(0, i as int),
                provider_id@,
                capability_id@,
            ),
        decreases i,
    {
        let k = i - 1;
        let ghost prefix = sv.subrange(0, i as int);
        assert(prefix.last() == states@[k as int]@);
        assert(prefix.drop_last() =~= sv.subrange(0, k as int));
        let sp = chars_of(states[k].provider_id.as_str());
        let sc = chars_of(states[k].capability_id.as_str());
        if crate::text::chars_eq(&sp, &p) && crate::text::chars_eq(&sc, &c) {
            return Some(k);
        }
        i = k;
    }
    None
}

/// Whether a provider descriptor's locale and region support are
/// advertised.
pub open spec fn support_flags(locale_support: Seq<char>, region_support: Seq<char>) -> (bool, bool) {
    (
        locale_support != "unavailable"@,
        region_support != "unavailable"@ && region_support != "not_supported"@,
    )
}

/// The locale and region support a provider descriptor advertises.
pub fn descriptor_support(locale_support: &str, region_support: &str) -> (r: (bool, bool))
    ensures
        r == support_flags(locale_support@, region_support@),
{
    let locale = chars_of(locale_support);
    let region = chars_of(region_support);
    let unavailable = chars_of("unavailable");
    let not_supported = chars_of("not_supported");
    (
        !crate::text::chars_eq(&locale, &unavailable),
        !crate::text::chars_eq(&region, &unavailable) && !crate::text::chars_eq(
            &region,
            &not_supported,
        ),
    )
}


/// How a credential write reaches the vault.
#[derive(Clone, Copy, Debug, PartialEq, Eq, Structural)]
pub enum VaultWrite {
    /// No credential is stored yet.
    Store,
    /// A credential in the API's own store is replaced.
    Replace,
}

/// How a credential may be written given where the vault finds the
/// provider's current one: never over an environment or operator-mounted
/// credential, which are answered as an invalid credential.
pub fn vault_write_for(source: VaultSource) -> (r: Result<VaultWrite, ProblemCode>)
    ensures
        r == match source {
            VaultSource::Environment | VaultSource::OperatorSecretMount => Err::<
                VaultWrite,
                ProblemCode,
            >(ProblemCode::ProviderCredentialInvalid),
            VaultSource::CredentialStore => Ok::<VaultWrite, ProblemCode>(VaultWrite::Replace),
            VaultSource::Absent => Ok::<VaultWrite, ProblemCode>(VaultWrite::Store),
        },
{
    match source {
        VaultSource::Environment => Err(ProblemCode::ProviderCredentialInvalid),
        VaultSource::OperatorSecretMount => Err(ProblemCode::ProviderCredentialInvalid),
        VaultSource::CredentialStore => Ok(VaultWrite::Replace),
        VaultSource::Absent => Ok(VaultWrite::Store),
    }
}

/// Whether removing a credential must revoke one in the vault: nothing to
/// revoke when none is stored, and environment or operator-mounted
/// credentials are answered as an invalid credential.
pub fn vault_revoke_for(source: VaultSource) -> (r: Result<bool, ProblemCode>)
    ensures
        r == match source {
            VaultSource::Environment | VaultSource::OperatorSecretMount => Err::<bool, ProblemCode>(
                ProblemCode::ProviderCredentialInvalid,
            ),
            VaultSource::CredentialStore => Ok::<bool, ProblemCode>(true),
            VaultSource::Absent => Ok::<bool, ProblemCode>(false),
        },
{
    match source {
        VaultSource::Environment => Err(ProblemCode::ProviderCredentialInvalid),
        VaultSource::OperatorSecretMount => Err(ProblemCode::ProviderCredentialInvalid),
        VaultSource::CredentialStore => Ok(true),
        VaultSource::Absent => Ok(false),
    }
}

/// With a credential present in a vault that answers, the inventory
/// reports the stored credential status as it is: a valid credential as
/// valid, an invalid one as invalid, and so on for every status.
pub proof fn lemma_present_credential_reports_its_status(
    runtime_available: bool,
    capability_id: Seq<char>,
    requirement: CredentialRequirement,
    testable: bool,
    state: StateView,
    source: VaultSource,
)
    requires
        state.credential_reference is Some,
        source != VaultSource::Absent,
    ensures
        ({
            let reported = capability_report(
                runtime_available,
                capability_id,
                requirement,
                testable,
                Some(state),
                Ok(source),
            ).credential_state;
            &&& state.credential_status == CredentialStatus::Missing ==> reported
                == CredentialStateDto::Missing
            &&& state.credential_status == CredentialStatus::NotRequired ==> reported
                == CredentialStateDto::NotRequired
            &&& state.credential_status == CredentialStatus::Optional ==> reported
                == CredentialStateDto::Optional
            &&& state.credential_status == CredentialStatus::StoredUnverified ==> reported
                == CredentialStateDto::StoredUnverified
            &&& state.credential_status == CredentialStatus::Valid ==> reported
                == CredentialStateDto::Valid
            &&& state.credential_status == CredentialStatus::Invalid ==> reported
                == CredentialStateDto::Invalid
            &&& state.credential_status == CredentialStatus::Expired ==> reported
                == CredentialStateDto::Expired
            &&& state.credential_status == CredentialStatus::Unavailable ==> reported
                == CredentialStateDto::Unavailable
            &&& state.credential_status == CredentialStatus::Revoked ==> reported
                == CredentialStateDto::Revoked
        }),
{
}

/// With credentials present in a vault that answers, the inventory tells
/// every stored credential status apart: two capabilities report the same
/// credential state only when their stored statuses agree.
pub proof fn lemma_present_credential_statuses_are_told_apart(
    runtime_available: bool,
    capability_id: Seq<char>,
    requirement: CredentialRequirement,
    testable: bool,
    state: StateView,
    other: StateView,
    source: VaultSource,
)
    requires
        state.credential_reference is Some,
        other.credential_reference is Some,
        source != VaultSource::Absent,
        capability_report(
            runtime_available,
            capability_id,
            requirement,
            testable,
            Some(state),
            Ok(source),
        ).credential_state == capability_report(
            runtime_available,
            capability_id,
            requirement,
            testable,
            Some(other),
            Ok(source),
        ).credential_state,
    ensures
        state.credential_status == other.credential_status,
{
}

/// When the vault cannot answer for a stored credential reference, the
/// capability reports its credential as unavailable, itself as degraded,
/// and is not writable.
pub proof fn lemma_unanswered_vault_degrades_the_capability(
    runtime_available: bool,
    capability_id: Seq<char>,
    requirement: CredentialRequirement,
    testable: bool,
    state: StateView,
)
    requires
        state.credential_reference is Some,
    ensures
        ({
            let r = capability_report(
                runtime_available,
                capability_id,
                requirement,
                testable,
                Some(state),
                Err(()),
            );
            &&& r.credential_state == CredentialStateDto::Unavailable
            &&& r.state == CapabilityStateDto::Degraded
            &&& !r.writable
        }),
{
}

/// A capability with no stored state reports what its requirement implies:
/// not required for no credential or a user agent only, optional for an
/// optional key, missing for a required one.
pub proof fn lemma_unstored_capability_reports_its_requirement(
    runtime_available: bool,
    capability_id: Seq<char>,
    requirement: CredentialRequirement,
    testable: bool,
    lookup: Result<VaultSource, ()>,
)
    ensures
        ({
            let reported = capability_report(
                runtime_available,
                capability_id,
                requirement,
                testable,
                None,
                lookup,
            ).credential_state;
            &&& (requirement == CredentialRequirement::NoneRequired || requirement
                == CredentialRequirement::UserAgentOnly) ==> reported
                == CredentialStateDto::NotRequired
            &&& requirement == CredentialRequirement::OptionalApiKey ==> reported
                == CredentialStateDto::Optional
            &&& requirement == CredentialRequirement::ApiKey ==> reported
                == CredentialStateDto::Missing
        }),
{
}

} // verus!
