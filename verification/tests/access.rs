use fasti_api::access::{
    admit_callback, admit_sign_in, binding_cookie, callback_redirect, callback_selection_redirect,
    clear_binding_cookie, clear_continuation_cookie, clear_session_cookies,
    continuation_binding_digest, continuation_problem_is_terminal, exact_callback_code,
    exact_callback_url_code, return_path, session_cookies, trailbase_start_problem,
    ReturnTarget, TrailBaseOrchestrationError,
};
use fasti_api::access::{
    bootstrap_cancel_problem, bootstrap_start_problem, callback_outcome_redirect,
    continuation_completed_cookies, continuation_problem_cookies, operator_callback_problem,
    parse_sha256_digest, CallbackOutcome, CreatedSession,
};
use fasti_api::headers::{
    application_request_authentication, direct_boundary, ApplicationAuthentication, HeaderField,
    RequestHeaders,
};
use fasti_api::problem::ProblemCode;
use fasti_api::{
    FASTI_ACCESS_CALLBACK_PATH, FASTI_ACCESS_CALLBACK_URL, FASTI_ACCESS_CONTINUATION_COOKIE,
    FASTI_ACCESS_HOST, FASTI_ACCESS_ORIGIN,
};

fn field(name: &str, value: &str) -> HeaderField {
    HeaderField { name: name.to_owned(), value: Some(value.to_owned()) }
}

fn headers(fields: Vec<HeaderField>) -> RequestHeaders {
    RequestHeaders { fields }
}

fn remove(h: &mut RequestHeaders, name: &str) {
    h.fields.retain(|f| f.name != name);
}

fn insert(h: &mut RequestHeaders, name: &str, value: &str) {
    remove(h, name);
    h.fields.push(field(name, value));
}

fn append(h: &mut RequestHeaders, name: &str, value: &str) {
    h.fields.push(field(name, value));
}

#[test]
fn session_cookie_attributes_keep_credentials_out_of_script_and_cross_site_requests() {
    let (session, csrf) = clear_session_cookies();
    let values = [session, csrf];
    assert_eq!(values.len(), 2);
    assert!(values[0].contains("Secure; HttpOnly; SameSite=Strict"));
    assert!(values[1].contains("Secure; SameSite=Strict"));
    assert!(values.iter().all(|value| !value.contains("Domain=")));
}

#[test]
fn callback_query_parser_accepts_only_the_exact_unencoded_code() {
    let valid = format!("code={}", "aB3".repeat(16));
    assert_eq!(exact_callback_code(Some(&valid)), Some("aB3".repeat(16)));
    for invalid in [
        None,
        Some(""),
        Some("code=short"),
        Some("code=aaaaaaaaaaaaaaaaaaaaaaaaaaaaaaaaaaaaaaaaaaaaaaaa&extra=1"),
        Some("code=aaaaaaaaaaaaaaaaaaaaaaaaaaaaaaaaaaaaaaaaaaaaaaa%61"),
        Some("code=aaaaaaaaaaaaaaaaaaaaaaaaaaaaaaaaaaaaaaaaaaaaaaa+"),
    ] {
        assert!(exact_callback_code(invalid).is_none());
    }
}

#[test]
fn operator_callback_parser_requires_the_exact_fixed_url() {
    let code = "aB3".repeat(16);
    let valid = format!("{FASTI_ACCESS_CALLBACK_URL}?code={code}");
    assert_eq!(exact_callback_url_code(&valid), Some(code));
    for invalid in [
        format!(" {valid}"),
        format!("{valid} "),
        format!("{valid}&extra=1"),
        format!("{valid}#fragment"),
        valid.replace("127.0.0.1", "localhost"),
        valid.replace(FASTI_ACCESS_CALLBACK_PATH, "/wrong"),
    ] {
        assert!(exact_callback_url_code(&invalid).is_none());
    }
}

#[test]
fn callback_failure_is_fixed_and_always_clears_the_binding() {
    let correlation_id = "req_0190b8a0-0000-7000-8000-000000000001";
    let plan = callback_redirect(ReturnTarget::FirstRun, correlation_id, None);
    assert_eq!(plan.status, 303);
    assert_eq!(
        plan.location,
        format!("/first-run?auth=failed&correlation_id={correlation_id}")
    );
    assert_eq!(plan.cache_control, "private, no-store");
    assert_eq!(plan.set_cookies.len(), 1);
    assert!(plan.set_cookies[0].starts_with("__Secure-fasti_auth_binding=;"));
}

fn exact() -> RequestHeaders {
    headers(vec![
        field("host", FASTI_ACCESS_HOST),
        field("origin", FASTI_ACCESS_ORIGIN),
        field("cookie", &format!("{FASTI_ACCESS_CONTINUATION_COOKIE}={}", "a".repeat(64))),
    ])
}

#[test]
fn continuation_binding_rejects_ambiguous_or_missing_browser_authority() {
    let boundary = direct_boundary();
    let mut exact_read = exact();
    remove(&mut exact_read, "origin");
    assert!(continuation_binding_digest(&exact_read, &boundary, false).is_ok());
    assert!(continuation_binding_digest(&exact(), &boundary, true).is_ok());

    let mut cases = Vec::new();
    let mut h = exact();
    remove(&mut h, "host");
    cases.push(("missing Host", true, h, "forbidden"));
    let mut h = exact();
    insert(&mut h, "host", "127.0.0.1:8421");
    cases.push(("wrong Host", true, h, "forbidden"));
    let mut h = exact();
    append(&mut h, "host", FASTI_ACCESS_HOST);
    cases.push(("duplicate Host", true, h, "forbidden"));
    let mut h = exact();
    insert(&mut h, "authorization", "Bearer forbidden");
    cases.push(("bearer credential", true, h, "forbidden"));
    let mut h = exact();
    remove(&mut h, "origin");
    cases.push(("missing Origin", true, h, "forbidden"));
    let mut h = exact();
    insert(&mut h, "origin", "https://example.test");
    cases.push(("wrong Origin", true, h, "forbidden"));
    let mut h = exact();
    append(&mut h, "origin", FASTI_ACCESS_ORIGIN);
    cases.push(("duplicate Origin", true, h, "forbidden"));
    let mut h = exact();
    remove(&mut h, "cookie");
    cases.push(("missing continuation cookie", false, h, "auth_browser_binding_invalid"));
    let mut h = exact();
    insert(&mut h, "cookie", "__Secure-fasti_auth_continuation=not-hex");
    cases.push(("malformed continuation cookie", false, h, "auth_browser_binding_invalid"));
    let mut h = exact();
    append(
        &mut h,
        "cookie",
        &format!("{FASTI_ACCESS_CONTINUATION_COOKIE}={}", "b".repeat(64)),
    );
    cases.push(("duplicate continuation cookie", false, h, "auth_browser_binding_invalid"));

    for (label, require_origin, h, expected) in cases {
        let error = continuation_binding_digest(&h, &boundary, require_origin).expect_err(label);
        assert_eq!(error.as_str(), expected, "{label}");
    }
}

#[test]
fn terminal_continuation_problem_clears_the_path_scoped_cookie() {
    assert!(continuation_problem_is_terminal(ProblemCode::AuthBrowserBindingInvalid));
    assert_eq!(
        clear_continuation_cookie(),
        "__Secure-fasti_auth_continuation=; Domain=127.0.0.1; Path=/api/access/v1/trailbase/continuation; Max-Age=0; Expires=Thu, 01 Jan 1970 00:00:00 GMT; Secure; HttpOnly; SameSite=Strict"
    );
}

#[test]
fn attributable_continuation_problem_keeps_the_cookie_for_dismissal() {
    assert!(!continuation_problem_is_terminal(ProblemCode::IdentityServiceUnavailable));
    assert!(continuation_problem_cookies(ProblemCode::IdentityServiceUnavailable).is_empty());
}

#[test]
fn attributable_callback_rotates_the_same_binding_with_exact_cookie_scope() {
    let binding = [7u8; 32];
    let correlation_id = "req_0190b8a0-0000-7000-8000-000000000002";
    let plan = callback_selection_redirect(
        ReturnTarget::ApplicationHome,
        &binding,
        300,
        correlation_id,
        true,
    );
    assert_eq!(plan.status, 303);
    assert_eq!(plan.location, format!("/?auth=failed&correlation_id={correlation_id}"));
    let cookies = &plan.set_cookies;
    assert_eq!(cookies.len(), 2);
    assert!(cookies[0].starts_with("__Secure-fasti_auth_binding=;"));
    assert!(cookies[1].starts_with(&format!(
        "{FASTI_ACCESS_CONTINUATION_COOKIE}={};",
        "07".repeat(32)
    )));
    assert!(cookies[1].contains("Domain=127.0.0.1; Path=/api/access/v1/trailbase/continuation;"));
    let max_age = cookies[1]
        .split("; ")
        .find_map(|part| part.strip_prefix("Max-Age="))
        .and_then(|value| value.parse::<u64>().ok())
        .expect("numeric continuation Max-Age");
    assert!(max_age > 0 && max_age <= 300);
    assert!(cookies[1].contains("Secure; HttpOnly; SameSite=Strict"));
}

#[test]
fn selection_without_remaining_lifetime_falls_back_to_the_failure_redirect() {
    let plan = callback_selection_redirect(ReturnTarget::AccountSecurity, &[1u8; 32], 0, "c", false);
    assert_eq!(plan.location, "/settings/account?auth=failed&correlation_id=c");
    assert_eq!(plan.set_cookies, vec![clear_binding_cookie()]);
    let plan = callback_selection_redirect(ReturnTarget::AccountSecurity, &[1u8; 32], 60, "c", false);
    assert_eq!(plan.location, "/settings/account?auth=continue");
    assert_eq!(plan.status, 303);
    assert_eq!(plan.cache_control, "private, no-store");
    assert_eq!(plan.referrer_policy, "no-referrer");
}

#[test]
fn created_session_redirect_sets_both_session_cookies() {
    let created = fasti_api::access::CreatedSession {
        session: [0xab; 32],
        csrf: [0x01; 32],
        remaining_seconds: 3600,
    };
    let plan = callback_redirect(ReturnTarget::ApplicationHome, "c", Some(&created));
    assert_eq!(plan.location, "/");
    assert_eq!(plan.set_cookies.len(), 3);
    assert_eq!(
        plan.set_cookies[1],
        format!(
            "__Host-fasti_session={}; Path=/; Max-Age=3600; Secure; HttpOnly; SameSite=Strict",
            "ab".repeat(32)
        )
    );
    assert_eq!(
        plan.set_cookies[2],
        format!("__Host-fasti_csrf={}; Path=/; Max-Age=3600; Secure; SameSite=Strict", "01".repeat(32))
    );
    let (s, _) = session_cookies(&[0u8; 32], &[0u8; 32], -5);
    assert!(s.contains("Max-Age=0;"));
}

#[test]
fn binding_cookie_scopes_the_sign_in_to_the_callback_path() {
    assert_eq!(
        binding_cookie(&[0x10; 32], 120),
        format!(
            "__Secure-fasti_auth_binding={}; Domain=127.0.0.1; Path=/api/access/v1/trailbase/callback; Max-Age=120; Secure; HttpOnly; SameSite=Lax",
            "10".repeat(32)
        )
    );
}

#[test]
fn return_paths_are_fixed() {
    assert_eq!(return_path(ReturnTarget::ApplicationHome), "/");
    assert_eq!(return_path(ReturnTarget::AccountSecurity), "/settings/account");
    assert_eq!(return_path(ReturnTarget::FirstRun), "/first-run");
}

#[test]
fn callback_admission_needs_get_exact_host_code_and_binding() {
    let code = "aB3".repeat(16);
    let query = format!("code={code}");
    let h = headers(vec![
        field("host", FASTI_ACCESS_HOST),
        field("cookie", &format!("__Secure-fasti_auth_binding={}", "0f".repeat(32))),
    ]);
    let admitted = admit_callback(true, &h, Some(&query)).expect("admitted");
    assert_eq!(admitted.code, code);
    assert_eq!(admitted.binding, [0x0f; 32]);
    assert!(admit_callback(false, &h, Some(&query)).is_none());
    let mut bearer = headers(h.fields.iter().map(|f| field(&f.name, f.value.as_deref().unwrap())).collect());
    append(&mut bearer, "authorization", "Bearer x");
    assert!(admit_callback(true, &bearer, Some(&query)).is_none());
    let no_cookie = headers(vec![field("host", FASTI_ACCESS_HOST)]);
    assert!(admit_callback(true, &no_cookie, Some(&query)).is_none());
}

#[test]
fn sign_in_requires_exact_origin_host_and_orchestrator() {
    let boundary = direct_boundary();
    let ok = headers(vec![field("origin", FASTI_ACCESS_ORIGIN), field("host", FASTI_ACCESS_HOST)]);
    assert_eq!(admit_sign_in(&ok, &boundary, true), Ok(()));
    assert_eq!(
        admit_sign_in(&ok, &boundary, false),
        Err(ProblemCode::TrailBaseTrustUnavailable)
    );
    let wrong = headers(vec![field("origin", "http://localhost:8420"), field("host", FASTI_ACCESS_HOST)]);
    assert_eq!(admit_sign_in(&wrong, &boundary, true), Err(ProblemCode::Forbidden));
}

#[test]
fn sign_in_start_problems_are_mapped() {
    assert_eq!(
        trailbase_start_problem(TrailBaseOrchestrationError::LocalState),
        ProblemCode::StorageUnavailable
    );
    assert_eq!(
        trailbase_start_problem(TrailBaseOrchestrationError::ApplicationProblem(
            ProblemCode::CapacityExceeded
        )),
        ProblemCode::CapacityExceeded
    );
}

#[test]
fn bootstrap_and_operator_problems_are_mapped() {
    assert_eq!(
        bootstrap_start_problem(TrailBaseOrchestrationError::InvalidInput),
        ProblemCode::IntegrityFailed
    );
    assert_eq!(
        bootstrap_start_problem(TrailBaseOrchestrationError::ExchangeFailed),
        ProblemCode::TrailBaseTrustUnavailable
    );
    assert_eq!(
        bootstrap_cancel_problem(TrailBaseOrchestrationError::LocalState),
        ProblemCode::StorageUnavailable
    );
    assert_eq!(
        operator_callback_problem(TrailBaseOrchestrationError::InvalidInput),
        ProblemCode::TrailBaseProofInvalid
    );
    assert_eq!(
        operator_callback_problem(TrailBaseOrchestrationError::LogoutUncertain),
        ProblemCode::TrailBaseSessionCleanupFailed
    );
    assert_eq!(
        operator_callback_problem(TrailBaseOrchestrationError::StatusRejected),
        ProblemCode::IdentityServiceUnavailable
    );
}

#[test]
fn callback_outcomes_choose_their_redirect() {
    let binding = [3u8; 32];
    let plan = callback_outcome_redirect(
        &CallbackOutcome::SelectionRequired { remaining_seconds: 90, return_target: ReturnTarget::FirstRun },
        &binding,
        "c",
    );
    assert_eq!(plan.location, "/first-run?auth=continue");
    assert_eq!(plan.set_cookies.len(), 2);
    let plan = callback_outcome_redirect(
        &CallbackOutcome::Failed { target: None, continuation_remaining_seconds: Some(90) },
        &binding,
        "c",
    );
    assert_eq!(plan.location, "/?auth=failed&correlation_id=c");
    assert_eq!(plan.set_cookies, vec![clear_binding_cookie()]);
}

#[test]
fn application_authentication_picks_one_credential_kind() {
    let boundary = direct_boundary();
    let secret = "0a".repeat(32);
    let bearer = headers(vec![field("authorization", &format!("Bearer {secret}"))]);
    assert!(matches!(
        application_request_authentication(&bearer, Some(&boundary), false),
        Ok(ApplicationAuthentication::Bearer(b)) if b == [0x0a; 32]
    ));
    let both = headers(vec![
        field("authorization", &format!("Bearer {secret}")),
        field("cookie", &format!("__Host-fasti_session={secret}")),
    ]);
    assert!(matches!(
        application_request_authentication(&both, Some(&boundary), false),
        Err(ProblemCode::AuthenticationFailed)
    ));
    let browser = headers(vec![
        field("host", FASTI_ACCESS_HOST),
        field("cookie", &format!("__Host-fasti_session={secret}")),
    ]);
    assert!(matches!(
        application_request_authentication(&browser, Some(&boundary), false),
        Ok(ApplicationAuthentication::BrowserRead(b)) if b == [0x0a; 32]
    ));
    assert!(matches!(
        application_request_authentication(&browser, None, false),
        Err(ProblemCode::AuthenticationFailed)
    ));
}

#[test]
fn continuation_answers_set_their_cookies() {
    assert_eq!(
        continuation_problem_cookies(ProblemCode::TrailBaseProofInvalid),
        vec![clear_continuation_cookie()]
    );
    assert!(continuation_problem_cookies(ProblemCode::StorageUnavailable).is_empty());
    let created = CreatedSession { session: [1; 32], csrf: [2; 32], remaining_seconds: 10 };
    let cookies = continuation_completed_cookies(&created);
    assert_eq!(cookies.len(), 3);
    assert_eq!(cookies[0], clear_continuation_cookie());
    assert!(cookies[1].starts_with(&format!("__Host-fasti_session={};", "01".repeat(32))));
    assert!(cookies[2].starts_with(&format!("__Host-fasti_csrf={};", "02".repeat(32))));
}

#[test]
fn candidate_revisions_are_canonical_sha256() {
    assert_eq!(parse_sha256_digest(&format!("sha256:{}", "ef".repeat(32))), Some([0xef; 32]));
    assert_eq!(parse_sha256_digest(&"ef".repeat(32)), None);
    assert_eq!(parse_sha256_digest(&format!("sha256:{}", "EF".repeat(32))), None);
    assert_eq!(parse_sha256_digest("sha256:"), None);
}
