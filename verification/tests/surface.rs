use fasti_api::activity::{Provenance, ReceiptStatus};
use fasti_api::browser_auth::{
    clear_cookies, csrf_cookie, no_store_headers, session_cookie, session_max_age,
};
use fasti_api::headers::{
    bearer_secret, bootstrap_secret, browser_session_mutation, browser_session_read,
    cookie_value, direct_boundary, HeaderField, RequestHeaders,
};
use fasti_api::idmap::IdMap;
use fasti_api::integration_status::integration_status;
use fasti_api::observation::{
    disposition_name, resolution_name, validate_request, ObservationResolution,
    ObservationSubmission, ObservationViolation, ProgressClaim,
};
use fasti_api::problem::{json_rejection_code, JsonRejectionStatus, ProblemCode};
use fasti_api::profile_state::{requested_disposition, tracked_record, TrackingDisposition, TrackingDispositionUpdate};
use fasti_api::routes::{details_path, static_fallback, StaticFallback};
use fasti_api::{FASTI_ACCESS_HOST, FASTI_ACCESS_ORIGIN};

fn h(fields: &[(&str, &str)]) -> RequestHeaders {
    RequestHeaders {
        fields: fields
            .iter()
            .map(|(n, v)| HeaderField { name: (*n).to_owned(), value: Some((*v).to_owned()) })
            .collect(),
    }
}

fn submission() -> ObservationSubmission {
    ObservationSubmission {
        source: "jellyfin".to_owned(),
        source_event_id: "evt-1".to_owned(),
        identifier_count: 2,
        title: Some("Title".to_owned()),
        progress: ProgressClaim::Complete,
        position_seconds: Some(10),
        duration_seconds: Some(20),
    }
}

#[test]
fn observation_bounds_are_checked_in_field_order() {
    assert_eq!(validate_request(&submission()), Ok(()));
    let mut s = submission();
    s.source = String::new();
    assert_eq!(validate_request(&s), Err(ObservationViolation::SourceBounds));
    let mut s = submission();
    s.source = "é".repeat(33);
    assert_eq!(validate_request(&s), Err(ObservationViolation::SourceBounds));
    let mut s = submission();
    s.source_event_id = "x".repeat(257);
    assert_eq!(validate_request(&s), Err(ObservationViolation::SourceEventIdBounds));
    let mut s = submission();
    s.identifier_count = 17;
    assert_eq!(validate_request(&s), Err(ObservationViolation::TooManyIdentifiers));
    let mut s = submission();
    s.title = Some("t".repeat(513));
    assert_eq!(validate_request(&s), Err(ObservationViolation::TitleTooLong));
    let mut s = submission();
    s.progress = ProgressClaim::OutOfRange;
    assert_eq!(validate_request(&s), Err(ObservationViolation::ProgressOutOfRange));
    let mut s = submission();
    s.progress = ProgressClaim::Partial;
    assert_eq!(validate_request(&s), Err(ObservationViolation::PartialProgress));
    assert_eq!(ObservationViolation::PartialProgress.pointer(), "/progress_percent");
    let mut s = submission();
    s.duration_seconds = Some(0);
    assert_eq!(validate_request(&s), Err(ObservationViolation::ZeroDuration));
    let mut s = submission();
    s.position_seconds = Some(21);
    assert_eq!(validate_request(&s), Err(ObservationViolation::PositionBeyondDuration));
    assert_eq!(resolution_name(ObservationResolution::Conflicted), "conflicted");
    assert_eq!(disposition_name(true), "replayed");
    assert_eq!(disposition_name(false), "committed");
}

#[test]
fn browser_cookies_keep_their_attributes() {
    assert_eq!(
        session_cookie("ab", 60, true),
        "fasti_session=ab; Path=/; HttpOnly; SameSite=Strict; Max-Age=60; Secure"
    );
    assert_eq!(csrf_cookie("cd", 0, false), "fasti_csrf=cd; Path=/; SameSite=Strict; Max-Age=0");
    let headers = clear_cookies(false);
    assert_eq!(headers.len(), 5);
    assert_eq!(headers[0].name, "cache-control");
    assert_eq!(headers[0].value, "private, no-store");
    assert_eq!(headers[3].value, "fasti_session=; Path=/; HttpOnly; SameSite=Strict; Max-Age=0");
    assert_eq!(headers[4].value, "fasti_csrf=; Path=/; SameSite=Strict; Max-Age=0");
    assert_eq!(no_store_headers()[2].value, "Cookie");
    assert_eq!(session_max_age(30), 1800);
    assert_eq!(session_max_age(u32::MAX), u32::MAX);
}

#[test]
fn cookie_lookup_refuses_ambiguity() {
    let one = h(&[("cookie", "a=1; b=2")]);
    assert_eq!(cookie_value(&one, "b"), Ok(Some("2".chars().collect())));
    assert_eq!(cookie_value(&one, "c"), Ok(None));
    let twice = h(&[("cookie", "a=1"), ("cookie", "a=2")]);
    assert_eq!(cookie_value(&twice, "a"), Err(()));
}

#[test]
fn bearer_and_bootstrap_secrets() {
    let secret = "0f".repeat(32);
    let ok = h(&[("authorization", &format!("Bearer {secret}"))]);
    assert_eq!(bearer_secret(&ok), Ok([0x0f; 32]));
    assert_eq!(bootstrap_secret(&ok), Ok([0x0f; 32]));
    let with_session = h(&[
        ("authorization", &format!("Bearer {secret}")),
        ("cookie", &format!("__Host-fasti_session={secret}")),
    ]);
    assert_eq!(bearer_secret(&with_session), Err(ProblemCode::AuthenticationFailed));
    let missing = h(&[]);
    assert_eq!(bootstrap_secret(&missing), Err(ProblemCode::Forbidden));
}

#[test]
fn browser_session_boundaries() {
    let boundary = direct_boundary();
    assert_eq!(boundary.origin, FASTI_ACCESS_ORIGIN);
    let secret = "aa".repeat(32);
    let read = h(&[("host", FASTI_ACCESS_HOST), ("cookie", &format!("__Host-fasti_session={secret}"))]);
    assert_eq!(browser_session_read(&read, &boundary), Ok([0xaa; 32]));
    let wrong_host = h(&[("host", "localhost:8420"), ("cookie", &format!("__Host-fasti_session={secret}"))]);
    assert_eq!(browser_session_read(&wrong_host, &boundary), Err(ProblemCode::BrowserSessionRevoked));
    let csrf = "bb".repeat(32);
    let mutation = h(&[
        ("host", FASTI_ACCESS_HOST),
        ("origin", FASTI_ACCESS_ORIGIN),
        ("cookie", &format!("__Host-fasti_session={secret}; __Host-fasti_csrf={csrf}")),
        ("x-csrf-token", &csrf),
    ]);
    assert_eq!(browser_session_mutation(&mutation, &boundary), Ok(([0xaa; 32], [0xbb; 32])));
    let forged = h(&[
        ("host", FASTI_ACCESS_HOST),
        ("origin", FASTI_ACCESS_ORIGIN),
        ("cookie", &format!("__Host-fasti_session={secret}; __Host-fasti_csrf={csrf}")),
        ("x-csrf-token", &"cc".repeat(32)),
    ]);
    assert_eq!(browser_session_mutation(&forged, &boundary), Err(ProblemCode::Forbidden));
}

#[test]
fn json_rejections_map_to_representation_problems() {
    assert_eq!(json_rejection_code(JsonRejectionStatus::BadRequest), ProblemCode::MalformedJson);
    assert_eq!(json_rejection_code(JsonRejectionStatus::Other), ProblemCode::ValidationFailed);
    assert_eq!(ProblemCode::AuthBrowserBindingInvalid.as_str(), "auth_browser_binding_invalid");
}

#[test]
fn tracking_dispositions() {
    assert_eq!(requested_disposition(TrackingDispositionUpdate::OnHold), Some(TrackingDisposition::OnHold));
    assert_eq!(requested_disposition(TrackingDispositionUpdate::Unset), None);
    assert_eq!(TrackingDisposition::OnHold.as_str(), "on_hold");
    assert!(matches!(tracked_record("rec_x"), Err(ProblemCode::RecordNotFound)));
    assert!(tracked_record("rec_0190b8a0c0de7abc8def012345678901").is_ok());
}

#[test]
fn routes_and_fallbacks() {
    assert_eq!(static_fallback("/api/v1/nope"), StaticFallback::NotFound);
    assert_eq!(static_fallback("/status"), StaticFallback::ServeStatic);
    assert_eq!(static_fallback("/api"), StaticFallback::ServeStatic);
    assert_eq!(
        details_path("tmdb", "film", "550", "true"),
        "/api/v1/search/providers/tmdb/film/details?provider_record_id=550&offline=true"
    );
}

#[test]
fn activity_wire_names() {
    assert_eq!(ReceiptStatus::DuplicateIgnored.as_str(), "duplicate_ignored");
    let p = Provenance { channel: "webhook".to_owned(), client: "plex".to_owned(), external_event_id: None };
    assert_eq!(p.clone().channel, "webhook");
}

#[test]
fn id_map_keeps_keys_sorted_and_unique() {
    let mut m = IdMap::new();
    m.insert("tmdb".to_owned(), "1".to_owned());
    m.insert("imdb".to_owned(), "2".to_owned());
    m.insert("tmdb".to_owned(), "3".to_owned());
    let keys: Vec<_> = m.entries().iter().map(|(k, v)| (k.clone(), v.clone())).collect();
    assert_eq!(keys, vec![("imdb".to_owned(), "2".to_owned()), ("tmdb".to_owned(), "3".to_owned())]);
}

#[test]
fn integration_status_lists_every_adapter() {
    let linux = integration_status(true);
    let ids: Vec<_> = linux.iter().map(|s| s.id.as_str()).collect();
    assert_eq!(ids, vec!["nuvio", "plex", "tautulli", "jellyfin", "emby", "mpris"]);
    assert!(linux[..5].iter().all(|s| s.state == "setup_required" && s.available && s.endpoint_ready));
    assert!(linux[5].available && !linux[5].endpoint_ready);
    let other = integration_status(false);
    assert_eq!(other[5].state, "unsupported");
    assert!(!other[5].available);
}

#[test]
fn observation_operation_material_is_the_json_identity_tuple() {
    assert_eq!(
        fasti_api::observation::operation_material("client-1", "plex", "evt-1"),
        r#"["observation","client-1","plex","evt-1"]"#
    );
    assert_eq!(
        fasti_api::observation::operation_material("c\"\\", "a\nb", "x\u{1}y"),
        r#"["observation","c\"\\","a\nb","x\u0001y"]"#
    );
    assert_ne!(
        fasti_api::observation::operation_material("client-1", "plex", "evt-1"),
        fasti_api::observation::operation_material("client-2", "plex", "evt-1")
    );
}
