use fasti_api::identity::{
    apply_policy_request, check_typed_id, policy_change, policy_scope, policy_semantic_digest,
    preview_policy_request, AnimeGroupingPreference, ClientId, IdentityInputViolation,
    OperationId, PolicyChange, PolicyChangeRequest, PolicyScope, PolicyScopeKind, RecordId,
};
use sha2::Digest;

const UUID: &str = "0190b8a0c0de7abc8def012345678901";

fn op() -> String {
    format!("op_{UUID}")
}

#[test]
fn semantic_digest_is_stable_and_binds_scope_revision_and_change() {
    let operation = OperationId::parse(&op()).expect("operation id");
    let set = PolicyChange::SetPreference(AnimeGroupingPreference::KeepMalReleasesSeparate);
    let first = policy_semantic_digest(&PolicyScope::Profile, 3, &set);
    assert_eq!(first, policy_semantic_digest(&PolicyScope::Profile, 3, &set));
    assert_ne!(first, policy_semantic_digest(&PolicyScope::Profile, 4, &set));
    assert_ne!(
        first,
        policy_semantic_digest(&PolicyScope::Profile, 3, &PolicyChange::Rollback(operation))
    );
}

#[test]
fn semantic_digest_is_sha256_of_the_tagged_preimage() {
    let digest = policy_semantic_digest(&PolicyScope::Profile, 1, &PolicyChange::InheritProfile);
    let mut expected = sha2::Sha256::new();
    expected.update(b"fasti:anime-grouping-policy:v1\0");
    expected.update(b"profile\0");
    expected.update(1u64.to_be_bytes());
    expected.update(b"inherit_profile");
    let expected: [u8; 32] = expected.finalize().into();
    assert_eq!(digest, expected);

    let client = ClientId::parse(&format!("cli_{UUID}")).expect("client id");
    let digest = policy_semantic_digest(
        &PolicyScope::Client(client),
        7,
        &PolicyChange::SetPreference(AnimeGroupingPreference::GroupByTvWork),
    );
    let mut expected = sha2::Sha256::new();
    expected.update(b"fasti:anime-grouping-policy:v1\0");
    expected.update(b"client\0");
    expected.update(format!("cli_{UUID}"));
    expected.update([0]);
    expected.update(7u64.to_be_bytes());
    expected.update(b"set\0");
    expected.update("group_by_tv_work");
    let expected: [u8; 32] = expected.finalize().into();
    assert_eq!(digest, expected);
}

#[test]
fn typed_identifiers_are_prefixed_uuid_v7() {
    let chars = |s: &str| s.chars().collect::<Vec<char>>();
    assert!(check_typed_id(&chars(&format!("rec_{UUID}")), "rec_"));
    assert!(!check_typed_id(&chars(&format!("rec_{}", UUID.to_uppercase())), "rec_"));
    assert!(!check_typed_id(&chars(&format!("rec_{}", UUID.replacen('7', "4", 1))), "rec_"));
    assert!(!check_typed_id(&chars(&format!("rec_{}", &UUID[1..])), "rec_"));
    assert!(!check_typed_id(&chars(&format!("op_{UUID}")), "rec_"));
    let bad_variant: String = UUID.chars().enumerate().map(|(i, c)| if i == 16 { 'c' } else { c }).collect();
    assert!(!check_typed_id(&chars(&format!("rec_{bad_variant}")), "rec_"));
    assert_eq!(RecordId::parse(&format!("rec_{UUID}")).map(|r| r.as_str().to_owned()), Some(format!("rec_{UUID}")));
}

#[test]
fn scope_and_change_are_validated_in_route_order() {
    assert!(matches!(policy_scope(PolicyScopeKind::Profile, None), Ok(PolicyScope::Profile)));
    assert!(matches!(
        policy_scope(PolicyScopeKind::Profile, Some("cli_x")),
        Err(IdentityInputViolation::ScopeMismatch)
    ));
    assert!(matches!(
        policy_scope(PolicyScopeKind::Client, None),
        Err(IdentityInputViolation::ScopeMismatch)
    ));
    assert!(matches!(
        policy_scope(PolicyScopeKind::Client, Some("cli_x")),
        Err(IdentityInputViolation::InvalidClientId)
    ));
    assert!(matches!(
        policy_change(&PolicyChangeRequest::Rollback("op_x".to_owned())),
        Err(IdentityInputViolation::InvalidRollbackOperation)
    ));
    assert!(matches!(
        apply_policy_request("bad", PolicyScopeKind::Client, None, &PolicyChangeRequest::InheritProfile, 1),
        Err(IdentityInputViolation::InvalidOperationId)
    ));
    let applied = apply_policy_request(&op(), PolicyScopeKind::Profile, None, &PolicyChangeRequest::InheritProfile, 9)
        .unwrap_or_else(|_| panic!("valid request"));
    assert_eq!(applied.expected_revision, 9);
    assert_eq!(
        applied.semantic_digest,
        policy_semantic_digest(&PolicyScope::Profile, 9, &PolicyChange::InheritProfile)
    );
    assert!(matches!(
        preview_policy_request(PolicyScopeKind::Profile, None, &PolicyChangeRequest::InheritProfile, Some("rec_bad"), 10),
        Err(IdentityInputViolation::InvalidPreviewCursor)
    ));
    assert!(matches!(
        preview_policy_request(PolicyScopeKind::Profile, None, &PolicyChangeRequest::InheritProfile, None, 0),
        Err(IdentityInputViolation::InvalidPreviewLimit)
    ));
    assert!(matches!(
        preview_policy_request(PolicyScopeKind::Profile, None, &PolicyChangeRequest::InheritProfile, None, 101),
        Err(IdentityInputViolation::InvalidPreviewLimit)
    ));
    assert!(preview_policy_request(PolicyScopeKind::Profile, None, &PolicyChangeRequest::InheritProfile, None, 100).is_ok());
}

#[test]
fn preferences_have_wire_names() {
    assert_eq!(AnimeGroupingPreference::Automatic.as_str(), "automatic");
    assert_eq!(AnimeGroupingPreference::GroupByTvWork.as_str(), "group_by_tv_work");
    assert_eq!(
        AnimeGroupingPreference::KeepMalReleasesSeparate.as_str(),
        "keep_mal_releases_separate"
    );
}
