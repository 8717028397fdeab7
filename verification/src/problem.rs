//! The problem codes that the HTTP adapter chooses between when it refuses a
//! request or maps a lower layer's failure.

use vstd::prelude::*;

verus! {

/// A registry problem code.
#[derive(Clone, Copy, Debug, PartialEq, Eq, Structural)]
pub enum ProblemCode {
    ValidationFailed,
    MalformedJson,
    PayloadTooLarge,
    UnsupportedMediaType,
    Forbidden,
    AuthenticationFailed,
    BrowserSessionRevoked,
    StorageUnavailable,
    IntegrityFailed,
    CapacityExceeded,
    IdentityServiceUnavailable,
    TrailBaseSessionCleanupFailed,
    TrailBaseTrustUnavailable,
    TrailBaseProofInvalid,
    AuthSubjectUnaffiliated,
    AuthBrowserBindingInvalid,
    ProviderUnavailable,
    ProviderCredentialMissing,
    ProviderCredentialInvalid,
    ProviderCredentialExpired,
    ProviderRateLimited,
    ProviderInvalidResponse,
    ProviderRouteUnavailable,
    InvalidObservation,
    RecordNotFound,
}

impl ProblemCode {
    pub open spec fn text(self) -> Seq<char> {
        match self {
            ProblemCode::ValidationFailed => "validation_failed"@,
            ProblemCode::MalformedJson => "malformed_json"@,
            ProblemCode::PayloadTooLarge => "payload_too_large"@,
            ProblemCode::UnsupportedMediaType => "unsupported_media_type"@,
            ProblemCode::Forbidden => "forbidden"@,
            ProblemCode::AuthenticationFailed => "authentication_failed"@,
            ProblemCode::BrowserSessionRevoked => "browser_session_revoked"@,
            ProblemCode::StorageUnavailable => "storage_unavailable"@,
            ProblemCode::IntegrityFailed => "integrity_failed"@,
            ProblemCode::CapacityExceeded => "capacity_exceeded"@,
            ProblemCode::IdentityServiceUnavailable => "identity_service_unavailable"@,
            ProblemCode::TrailBaseSessionCleanupFailed => "trailbase_session_cleanup_failed"@,
            ProblemCode::TrailBaseTrustUnavailable => "trailbase_trust_unavailable"@,
            ProblemCode::TrailBaseProofInvalid => "trailbase_proof_invalid"@,
            ProblemCode::AuthSubjectUnaffiliated => "auth_subject_unaffiliated"@,
            ProblemCode::AuthBrowserBindingInvalid => "auth_browser_binding_invalid"@,
            ProblemCode::ProviderUnavailable => "provider_unavailable"@,
            ProblemCode::ProviderCredentialMissing => "provider_credential_missing"@,
            ProblemCode::ProviderCredentialInvalid => "provider_credential_invalid"@,
            ProblemCode::ProviderCredentialExpired => "provider_credential_expired"@,
            ProblemCode::ProviderRateLimited => "provider_rate_limited"@,
            ProblemCode::ProviderInvalidResponse => "provider_invalid_response"@,
            ProblemCode::ProviderRouteUnavailable => "provider_route_unavailable"@,
            ProblemCode::InvalidObservation => "invalid_observation"@,
            ProblemCode::RecordNotFound => "record_not_found"@,
        }
    }

    /// The code's registry name.
    pub fn as_str(&self) -> (s: &'static str)
        ensures
            s@ == self.text(),
    {
        match self {
            ProblemCode::ValidationFailed => "validation_failed",
            ProblemCode::MalformedJson => "malformed_json",
            ProblemCode::PayloadTooLarge => "payload_too_large",
            ProblemCode::UnsupportedMediaType => "unsupported_media_type",
            ProblemCode::Forbidden => "forbidden",
            ProblemCode::AuthenticationFailed => "authentication_failed",
            ProblemCode::BrowserSessionRevoked => "browser_session_revoked",
            ProblemCode::StorageUnavailable => "storage_unavailable",
            ProblemCode::IntegrityFailed => "integrity_failed",
            ProblemCode::CapacityExceeded => "capacity_exceeded",
            ProblemCode::IdentityServiceUnavailable => "identity_service_unavailable",
            ProblemCode::TrailBaseSessionCleanupFailed => "trailbase_session_cleanup_failed",
            ProblemCode::TrailBaseTrustUnavailable => "trailbase_trust_unavailable",
            ProblemCode::TrailBaseProofInvalid => "trailbase_proof_invalid",
            ProblemCode::AuthSubjectUnaffiliated => "auth_subject_unaffiliated",
            ProblemCode::AuthBrowserBindingInvalid => "auth_browser_binding_invalid",
            ProblemCode::ProviderUnavailable => "provider_unavailable",
            ProblemCode::ProviderCredentialMissing => "provider_credential_missing",
            ProblemCode::ProviderCredentialInvalid => "provider_credential_invalid",
            ProblemCode::ProviderCredentialExpired => "provider_credential_expired",
            ProblemCode::ProviderRateLimited => "provider_rate_limited",
            ProblemCode::ProviderInvalidResponse => "provider_invalid_response",
            ProblemCode::ProviderRouteUnavailable => "provider_route_unavailable",
            ProblemCode::InvalidObservation => "invalid_observation",
            ProblemCode::RecordNotFound => "record_not_found",
        }
    }
}

/// The rejection class of an HTTP request body that did not become JSON.
#[derive(Clone, Copy, Debug, PartialEq, Eq, Structural)]
pub enum JsonRejectionStatus {
    BadRequest,
    PayloadTooLarge,
    UnsupportedMediaType,
    Other,
}

/// The problem code for a JSON body that was refused before it reached the
/// application: malformed, too large, of the wrong media type, or not of
/// the request schema.
pub fn json_rejection_code(status: JsonRejectionStatus) -> (code: ProblemCode)
    ensures
        code == match status {
            JsonRejectionStatus::BadRequest => ProblemCode::MalformedJson,
            JsonRejectionStatus::PayloadTooLarge => ProblemCode::PayloadTooLarge,
            JsonRejectionStatus::UnsupportedMediaType => ProblemCode::UnsupportedMediaType,
            JsonRejectionStatus::Other => ProblemCode::ValidationFailed,
        },
{
    match status {
        JsonRejectionStatus::BadRequest => ProblemCode::MalformedJson,
        JsonRejectionStatus::PayloadTooLarge => ProblemCode::PayloadTooLarge,
        JsonRejectionStatus::UnsupportedMediaType => ProblemCode::UnsupportedMediaType,
        JsonRejectionStatus::Other => ProblemCode::ValidationFailed,
    }
}

} // verus!
