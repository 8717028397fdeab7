//! The direct listener's Access surface: the TrailBase callback parsers,
//! the redirects and cookies that answer a callback or a continuation, the
//! continuation binding check, and the mapping of orchestration failures to
//! problem codes.

use crate::digest::{sha256, sha256_digest};
use crate::headers::{
    cookie_lookup, exact_text, opt_chars, BrowserBoundary, RequestHeaders, cookie_value,
};
use crate::problem::ProblemCode;
use crate::secrets::{bytes_of_hex, decode_secret_chars, hex_of, is_secret_hex};
use crate::text::{
    chars_of, chars_eq, decimal, has_prefix, is_alphanumeric_char, is_ascii_alphanumeric,
    push_chars, push_decimal, push_str, string_from_chars, strip_prefix_chars,
};
use crate::{
    FASTI_ACCESS_BINDING_COOKIE, FASTI_ACCESS_CALLBACK_PATH, FASTI_ACCESS_CALLBACK_URL,
    FASTI_ACCESS_CONTINUATION_COOKIE, FASTI_ACCESS_CONTINUATION_PATH, FASTI_ACCESS_HOST,
};
use crate::secrets::encode_secret;
use crate::headers::{CSRF_COOKIE, SESSION_COOKIE};
use vstd::prelude::*;

verus! {

pub open spec fn opt_str(s: Option<&str>) -> Option<Seq<char>> {
    match s {
        Some(v) => Some(v@),
        None => None,
    }
}

/// The authorization code of a callback query: the query must be exactly
/// `code=` followed by 48 ASCII letters and digits, with nothing encoded
/// and nothing else.
pub open spec fn callback_code(raw_query: Option<Seq<char>>) -> Option<Seq<char>> {
    match raw_query {
        Some(q) => if has_prefix(q, "code="@) {
            let c = q.subrange("code="@.len() as int, q.len() as int);
            if c.len() == 48 && (forall|i: int|
                0 <= i < c.len() ==> is_ascii_alphanumeric(#[trigger] c[i])) {
                Some(c)
            } else {
                None
            }
        } else {
            None
        },
        None => None,
    }
}

/// The authorization code of a full callback URL: the fixed callback URL,
/// `?`, then a query that `callback_code` accepts.
pub open spec fn callback_url_code(value: Seq<char>) -> Option<Seq<char>> {
    if has_prefix(value, FASTI_ACCESS_CALLBACK_URL@) {
        let rest = value.subrange(FASTI_ACCESS_CALLBACK_URL@.len() as int, value.len() as int);
        if has_prefix(rest, "?"@) {
            callback_code(Some(rest.subrange(1, rest.len() as int)))
        } else {
            None
        }
    } else {
        None
    }
}

fn callback_code_chars(q: &[char]) -> (r: Option<Vec<char>>)
    ensures
        opt_chars(r) == callback_code(Some(q@)),
{
    let prefix = chars_of("code=");
    let code = match strip_prefix_chars(q, &prefix) {
        Some(c) => c,
        None => return None,
    };
    if code.len() != 48 {
        return None;
    }
    let mut i: usize = 0;
    while i < code.len()
        invariant
            i <= code@.len(),
            code@.len() == 48,
            has_prefix(q@, "code="@),
            code@ == q@.subrange("code="@.len() as int, q@.len() as int),
            forall|j: int| 0 <= j < i ==> is_ascii_alphanumeric(#[trigger] code@[j]),
        decreases code@.len() - i,
    {
        if !is_alphanumeric_char(code[i]) {
            return None;
        }
        i = i + 1;
    }
    Some(code)
}

/// Parses the raw query of a TrailBase callback: `code=` and exactly 48
/// ASCII alphanumerics, nothing more.
pub fn exact_callback_code(raw_query: Option<&str>) -> (code: Option<String>)
    ensures
        match code {
            Some(c) => callback_code(opt_str(raw_query)) == Some(c@),
            None => callback_code(opt_str(raw_query)).is_none(),
        },
{
    let q = match raw_query {
        Some(q) => q,
        None => return None,
    };
    let cs = chars_of(q);
    match callback_code_chars(&cs) {
        Some(c) => Some(string_from_chars(&c)),
        None => None,
    }
}

/// Parses the callback URL an operator pastes back: exactly the fixed
/// callback URL, `?`, and a query that `exact_callback_code` accepts.
pub fn exact_callback_url_code(value: &str) -> (code: Option<String>)
    ensures
        match code {
            Some(c) => callback_url_code(value@) == Some(c@),
            None => callback_url_code(value@).is_none(),
        },
{
    let cs = chars_of(value);
    let url = chars_of(FASTI_ACCESS_CALLBACK_URL);
    let rest = match strip_prefix_chars(&cs, &url) {
        Some(r) => r,
        None => return None,
    };
    let question = chars_of("?");
    let query = match strip_prefix_chars(&rest, &question) {
        Some(q) => q,
        None => return None,
    };
    proof {
        reveal_strlit("?");
    }
    match callback_code_chars(&query) {
        Some(c) => Some(string_from_chars(&c)),
        None => None,
    }
}

/// Where a completed or failed sign-in returns the browser.
#[derive(Clone, Copy, Debug, PartialEq, Eq, Structural)]
pub enum ReturnTarget {
    ApplicationHome,
    AccountSecurity,
    FirstRun,
}

pub open spec fn return_path_spec(target: ReturnTarget) -> Seq<char> {
    match target {
        ReturnTarget::ApplicationHome => "/"@,
        ReturnTarget::AccountSecurity => "/settings/account"@,
        ReturnTarget::FirstRun => "/first-run"@,
    }
}

/// The fixed application path for a return target.
pub fn return_path(target: ReturnTarget) -> (path: &'static str)
    ensures
        path@ == return_path_spec(target),
{
    match target {
        ReturnTarget::ApplicationHome => "/",
        ReturnTarget::AccountSecurity => "/settings/account",
        ReturnTarget::FirstRun => "/first-run",
    }
}

/// The `Location` of a callback redirect: the bare return path after a
/// session was issued, otherwise the return path with the failure marker
/// and the request's correlation identifier.
pub open spec fn callback_location(
    target: ReturnTarget,
    correlation_id: Seq<char>,
    session_created: bool,
) -> Seq<char> {
    if session_created {
        return_path_spec(target)
    } else {
        return_path_spec(target) + "?auth=failed&correlation_id="@ + correlation_id
    }
}

/// The `Location` that sends the browser on to choose its affiliation.
pub open spec fn continue_location(target: ReturnTarget) -> Seq<char> {
    return_path_spec(target) + "?auth=continue"@
}

/// `Set-Cookie` that issues the browser session: HttpOnly, Secure,
/// SameSite=Strict, host-only, for `max_age` seconds.
pub open spec fn session_cookie_text(secret: Seq<u8>, max_age: nat) -> Seq<char> {
    SESSION_COOKIE@ + "="@ + hex_of(secret) + "; Path=/; Max-Age="@ + decimal(max_age)
        + "; Secure; HttpOnly; SameSite=Strict"@
}

/// `Set-Cookie` that issues the CSRF value: script-readable, Secure,
/// SameSite=Strict, host-only, for `max_age` seconds.
pub open spec fn csrf_cookie_text(secret: Seq<u8>, max_age: nat) -> Seq<char> {
    CSRF_COOKIE@ + "="@ + hex_of(secret) + "; Path=/; Max-Age="@ + decimal(max_age)
        + "; Secure; SameSite=Strict"@
}

/// `Set-Cookie` that clears the browser session.
pub open spec fn clear_session_cookie_text() -> Seq<char> {
    SESSION_COOKIE@ + "=; Path=/; Max-Age=0; Secure; HttpOnly; SameSite=Strict"@
}

/// `Set-Cookie` that clears the CSRF value.
pub open spec fn clear_csrf_cookie_text() -> Seq<char> {
    CSRF_COOKIE@ + "=; Path=/; Max-Age=0; Secure; SameSite=Strict"@
}

/// `Set-Cookie` that clears the callback binding on its exact path.
pub open spec fn clear_binding_cookie_text() -> Seq<char> {
    FASTI_ACCESS_BINDING_COOKIE@ + "=; Domain=127.0.0.1; Path="@ + FASTI_ACCESS_CALLBACK_PATH@
        + "; Max-Age=0; Expires=Thu, 01 Jan 1970 00:00:00 GMT; Secure; HttpOnly; SameSite=Lax"@
}

/// `Set-Cookie` that clears the continuation binding on its exact path.
pub open spec fn clear_continuation_cookie_text() -> Seq<char> {
    FASTI_ACCESS_CONTINUATION_COOKIE@ + "=; Domain=127.0.0.1; Path="@
        + FASTI_ACCESS_CONTINUATION_PATH@
        + "; Max-Age=0; Expires=Thu, 01 Jan 1970 00:00:00 GMT; Secure; HttpOnly; SameSite=Strict"@
}

/// `Set-Cookie` that scopes the browser binding to the continuation path.
pub open spec fn continuation_cookie_text(binding: Seq<u8>, max_age: nat) -> Seq<char> {
    FASTI_ACCESS_CONTINUATION_COOKIE@ + "="@ + hex_of(binding) + "; Domain=127.0.0.1; Path="@
        + FASTI_ACCESS_CONTINUATION_PATH@ + "; Max-Age="@ + decimal(max_age)
        + "; Secure; HttpOnly; SameSite=Strict"@
}

/// `Set-Cookie` that scopes a new browser binding to the callback path.
pub open spec fn binding_cookie_text(binding: Seq<u8>, max_age: nat) -> Seq<char> {
    FASTI_ACCESS_BINDING_COOKIE@ + "="@ + hex_of(binding) + "; Domain=127.0.0.1; Path="@
        + FASTI_ACCESS_CALLBACK_PATH@ + "; Max-Age="@ + decimal(max_age)
        + "; Secure; HttpOnly; SameSite=Lax"@
}

/// Remaining lifetime in whole seconds, never negative.
pub open spec fn max_age_of(remaining_seconds: i64) -> nat {
    if remaining_seconds < 0 {
        0
    } else {
        remaining_seconds as nat
    }
}

fn max_age(remaining_seconds: i64) -> (r: u64)
    ensures
        r == max_age_of(remaining_seconds),
{
    if remaining_seconds < 0 {
        0
    } else {
        remaining_seconds as u64
    }
}

fn push_hex(out: &mut Vec<char>, bytes: &[u8; 32])
    ensures
        final(out)@ == old(out)@ + hex_of(bytes@),
{
    let hex = encode_secret(bytes);
    push_str(out, hex.as_str());
}

/// The two `Set-Cookie` values that issue a browser session.
pub fn session_cookies(session: &[u8; 32], csrf: &[u8; 32], remaining_seconds: i64) -> (r: (
    String,
    String,
))
    ensures
        r.0@ == session_cookie_text(session@, max_age_of(remaining_seconds)),
        r.1@ == csrf_cookie_text(csrf@, max_age_of(remaining_seconds)),
{
    let age = max_age(remaining_seconds);
    let mut a: Vec<char> = Vec::new();
    push_str(&mut a, SESSION_COOKIE);
    push_str(&mut a, "=");
    push_hex(&mut a, session);
    push_str(&mut a, "; Path=/; Max-Age=");
    push_decimal(&mut a, age);
    push_str(&mut a, "; Secure; HttpOnly; SameSite=Strict");
    let mut b: Vec<char> = Vec::new();
    push_str(&mut b, CSRF_COOKIE);
    push_str(&mut b, "=");
    push_hex(&mut b, csrf);
    push_str(&mut b, "; Path=/; Max-Age=");
    push_decimal(&mut b, age);
    push_str(&mut b, "; Secure; SameSite=Strict");
    (string_from_chars(&a), string_from_chars(&b))
}

/// The two `Set-Cookie` values that clear a browser session.
pub fn clear_session_cookies() -> (r: (String, String))
    ensures
        r.0@ == clear_session_cookie_text(),
        r.1@ == clear_csrf_cookie_text(),
{
    let mut a: Vec<char> = Vec::new();
    push_str(&mut a, SESSION_COOKIE);
    push_str(&mut a, "=; Path=/; Max-Age=0; Secure; HttpOnly; SameSite=Strict");
    let mut b: Vec<char> = Vec::new();
    push_str(&mut b, CSRF_COOKIE);
    push_str(&mut b, "=; Path=/; Max-Age=0; Secure; SameSite=Strict");
    (string_from_chars(&a), string_from_chars(&b))
}

/// The `Set-Cookie` value that clears the callback binding.
pub fn clear_binding_cookie() -> (r: String)
    ensures
        r@ == clear_binding_cookie_text(),
{
    let mut a: Vec<char> = Vec::new();
    push_str(&mut a, FASTI_ACCESS_BINDING_COOKIE);
    push_str(&mut a, "=; Domain=127.0.0.1; Path=");
    push_str(&mut a, FASTI_ACCESS_CALLBACK_PATH);
    push_str(
        &mut a,
        "; Max-Age=0; Expires=Thu, 01 Jan 1970 00:00:00 GMT; Secure; HttpOnly; SameSite=Lax",
    );
    string_from_chars(&a)
}

/// The `Set-Cookie` value that clears the continuation binding.
pub fn clear_continuation_cookie() -> (r: String)
    ensures
        r@ == clear_continuation_cookie_text(),
{
    let mut a: Vec<char> = Vec::new();
    push_str(&mut a, FASTI_ACCESS_CONTINUATION_COOKIE);
    push_str(&mut a, "=; Domain=127.0.0.1; Path=");
    push_str(&mut a, FASTI_ACCESS_CONTINUATION_PATH);
    push_str(
        &mut a,
        "; Max-Age=0; Expires=Thu, 01 Jan 1970 00:00:00 GMT; Secure; HttpOnly; SameSite=Strict",
    );
    string_from_chars(&a)
}

/// The `Set-Cookie` value that hands the binding to the continuation path.
pub fn continuation_cookie(binding: &[u8; 32], max_age: u64) -> (r: String)
    ensures
        r@ == continuation_cookie_text(binding@, max_age as nat),
{
    let mut a: Vec<char> = Vec::new();
    push_str(&mut a, FASTI_ACCESS_CONTINUATION_COOKIE);
    push_str(&mut a, "=");
    push_hex(&mut a, binding);
    push_str(&mut a, "; Domain=127.0.0.1; Path=");
    push_str(&mut a, FASTI_ACCESS_CONTINUATION_PATH);
    push_str(&mut a, "; Max-Age=");
    push_decimal(&mut a, max_age);
    push_str(&mut a, "; Secure; HttpOnly; SameSite=Strict");
    string_from_chars(&a)
}

/// The `Set-Cookie` value that binds a starting sign-in to this browser.
pub fn binding_cookie(binding: &[u8; 32], remaining_seconds: i64) -> (r: String)
    ensures
        r@ == binding_cookie_text(binding@, max_age_of(remaining_seconds)),
{
    let age = max_age(remaining_seconds);
    let mut a: Vec<char> = Vec::new();
    push_str(&mut a, FASTI_ACCESS_BINDING_COOKIE);
    push_str(&mut a, "=");
    push_hex(&mut a, binding);
    push_str(&mut a, "; Domain=127.0.0.1; Path=");
    push_str(&mut a, FASTI_ACCESS_CALLBACK_PATH);
    push_str(&mut a, "; Max-Age=");
    push_decimal(&mut a, age);
    push_str(&mut a, "; Secure; HttpOnly; SameSite=Lax");
    string_from_chars(&a)
}

/// A `303 See Other` answer: never cached, sent without a referrer.
pub struct RedirectPlan {
    /// The HTTP status code.
    pub status: u16,
    /// The `Location` header.
    pub location: String,
    /// The `Cache-Control` header.
    pub cache_control: String,
    /// The `Referrer-Policy` header.
    pub referrer_policy: String,
    /// The `Set-Cookie` headers, in order.
    pub set_cookies: Vec<String>,
}

pub open spec fn cookies_view(v: Seq<String>) -> Seq<Seq<char>> {
    Seq::new(v.len(), |i: int| v[i]@)
}

impl RedirectPlan {
    pub open spec fn cookie_texts(&self) -> Seq<Seq<char>> {
        cookies_view(self.set_cookies@)
    }

    /// The fixed framing of every sign-in redirect: `303 See Other`,
    /// `Cache-Control: private, no-store` and `Referrer-Policy: no-referrer`.
    pub open spec fn is_see_other_no_store(&self) -> bool {
        &&& self.status == 303
        &&& self.cache_control@ == "private, no-store"@
        &&& self.referrer_policy@ == "no-referrer"@
    }

    /// A `303 See Other` redirect to `location` that sets `set_cookies`,
    /// never cached and sent without a referrer.
    fn see_other(location: String, set_cookies: Vec<String>) -> (plan: RedirectPlan)
        ensures
            plan.is_see_other_no_store(),
            plan.location == location,
            plan.set_cookies == set_cookies,
    {
        RedirectPlan {
            status: 303,
            location,
            cache_control: string_from_chars(&chars_of("private, no-store")),
            referrer_policy: string_from_chars(&chars_of("no-referrer")),
            set_cookies,
        }
    }
}

/// A browser session that the sign-in just issued.
pub struct CreatedSession {
    pub session: [u8; 32],
    pub csrf: [u8; 32],
    /// Seconds until the session's absolute expiry.
    pub remaining_seconds: i64,
}

/// The cookies of a callback redirect: the callback binding always cleared,
/// and the new session's cookies when one was issued.
pub open spec fn callback_cookies(created: Option<CreatedSession>) -> Seq<Seq<char>> {
    match created {
        Some(c) => seq![
            clear_binding_cookie_text(),
            session_cookie_text(c.session@, max_age_of(c.remaining_seconds)),
            csrf_cookie_text(c.csrf@, max_age_of(c.remaining_seconds)),
        ],
        None => seq![clear_binding_cookie_text()],
    }
}

fn location_chars(target: ReturnTarget, correlation_id: &str, created: bool) -> (r: Vec<char>)
    ensures
        r@ == callback_location(target, correlation_id@, created),
{
    let mut loc: Vec<char> = Vec::new();
    push_str(&mut loc, return_path(target));
    if !created {
        push_str(&mut loc, "?auth=failed&correlation_id=");
        push_str(&mut loc, correlation_id);
    }
    assert(loc@ =~= callback_location(target, correlation_id@, created));
    loc
}

/// The redirect that ends a callback: the return path (with the failure
/// marker when no session was issued), the callback binding cleared, and
/// the session cookies when a session was issued.
pub fn callback_redirect(
    target: ReturnTarget,
    correlation_id: &str,
    created: Option<&CreatedSession>,
) -> (plan: RedirectPlan)
    ensures
        plan.is_see_other_no_store(),
        plan.location@ == callback_location(target, correlation_id@, created.is_some()),
        plan.cookie_texts() == callback_cookies(
            match created {
                Some(c) => Some(*c),
                None => None,
            },
        ),
{
    let loc = location_chars(target, correlation_id, created.is_some());
    let mut cookies: Vec<String> = Vec::new();
    cookies.push(clear_binding_cookie());
    match created {
        Some(c) => {
            let (s, f) = session_cookies(&c.session, &c.csrf, c.remaining_seconds);
            cookies.push(s);
            cookies.push(f);
        },
        None => {},
    }
    let plan = RedirectPlan::see_other(string_from_chars(&loc), cookies);
    assert(plan.cookie_texts() =~= callback_cookies(
        match created {
            Some(c) => Some(*c),
            None => None,
        },
    ));
    plan
}

/// The redirect that sends the browser on to choose an affiliation, or,
/// once the continuation has expired, the plain failed-callback redirect.
pub open spec fn selection_location(
    target: ReturnTarget,
    correlation_id: Seq<char>,
    remaining_seconds: i64,
    failed: bool,
) -> Seq<char> {
    if remaining_seconds <= 0 || failed {
        callback_location(target, correlation_id, false)
    } else {
        continue_location(target)
    }
}

pub open spec fn selection_cookies(binding: Seq<u8>, remaining_seconds: i64) -> Seq<Seq<char>> {
    if remaining_seconds <= 0 {
        seq![clear_binding_cookie_text()]
    } else {
        seq![
            clear_binding_cookie_text(),
            continuation_cookie_text(binding, remaining_seconds as nat),
        ]
    }
}

/// The redirect after a callback that needs an explicit sign-in choice: the
/// same browser binding moves from the callback path to the continuation
/// path for the continuation's remaining lifetime.
pub fn callback_selection_redirect(
    target: ReturnTarget,
    binding: &[u8; 32],
    remaining_seconds: i64,
    correlation_id: &str,
    failed: bool,
) -> (plan: RedirectPlan)
    ensures
        plan.is_see_other_no_store(),
        plan.location@ == selection_location(target, correlation_id@, remaining_seconds, failed),
        plan.cookie_texts() == selection_cookies(binding@, remaining_seconds),
{
    if remaining_seconds <= 0 {
        return callback_redirect(target, correlation_id, None);
    }
    let mut loc: Vec<char> = Vec::new();
    push_str(&mut loc, return_path(target));
    if failed {
        push_str(&mut loc, "?auth=failed&correlation_id=");
        push_str(&mut loc, correlation_id);
    } else {
        push_str(&mut loc, "?auth=continue");
    }
    let mut cookies: Vec<String> = Vec::new();
    cookies.push(clear_binding_cookie());
    cookies.push(continuation_cookie(binding, remaining_seconds as u64));
    let plan = RedirectPlan::see_other(string_from_chars(&loc), cookies);
    assert(plan.cookie_texts() =~= selection_cookies(binding@, remaining_seconds));
    assert(loc@ =~= selection_location(target, correlation_id@, remaining_seconds, failed));
    plan
}

/// Failures of the TrailBase orchestration.
#[derive(Clone, Copy, Debug, PartialEq, Eq, Structural)]
pub enum TrailBaseOrchestrationError {
    ApplicationProblem(ProblemCode),
    InvalidInput,
    LocalState,
    ExchangeFailed,
    ExchangeOutcomeUncertain,
    StatusRejected,
    LogoutUncertain,
    LocalAuthorizationDenied,
}

/// The problem a browser sees when starting a sign-in fails.
pub open spec fn sign_in_start_code_spec(error: TrailBaseOrchestrationError) -> ProblemCode {
    match error {
        TrailBaseOrchestrationError::ApplicationProblem(code) => code,
        TrailBaseOrchestrationError::InvalidInput => ProblemCode::ValidationFailed,
        TrailBaseOrchestrationError::LocalState => ProblemCode::StorageUnavailable,
        TrailBaseOrchestrationError::ExchangeFailed
        | TrailBaseOrchestrationError::ExchangeOutcomeUncertain
        | TrailBaseOrchestrationError::StatusRejected => ProblemCode::IdentityServiceUnavailable,
        TrailBaseOrchestrationError::LogoutUncertain => ProblemCode::TrailBaseSessionCleanupFailed,
        TrailBaseOrchestrationError::LocalAuthorizationDenied => ProblemCode::AuthSubjectUnaffiliated,
    }
}

/// Maps a failed sign-in start to its problem code; an application
/// problem passes through unchanged.
pub fn trailbase_start_problem(error: TrailBaseOrchestrationError) -> (code: ProblemCode)
    ensures
        code == sign_in_start_code_spec(error),
{
    match error {
        TrailBaseOrchestrationError::ApplicationProblem(code) => code,
        TrailBaseOrchestrationError::InvalidInput => ProblemCode::ValidationFailed,
        TrailBaseOrchestrationError::LocalState => ProblemCode::StorageUnavailable,
        TrailBaseOrchestrationError::ExchangeFailed
        | TrailBaseOrchestrationError::ExchangeOutcomeUncertain
        | TrailBaseOrchestrationError::StatusRejected => ProblemCode::IdentityServiceUnavailable,
        TrailBaseOrchestrationError::LogoutUncertain => ProblemCode::TrailBaseSessionCleanupFailed,
        TrailBaseOrchestrationError::LocalAuthorizationDenied => ProblemCode::AuthSubjectUnaffiliated,
    }
}

/// Maps a failed first-administrator bootstrap start to its problem code.
pub fn bootstrap_start_problem(error: TrailBaseOrchestrationError) -> (code: ProblemCode)
    ensures
        code == match error {
            TrailBaseOrchestrationError::ApplicationProblem(c) => c,
            TrailBaseOrchestrationError::InvalidInput => ProblemCode::IntegrityFailed,
            TrailBaseOrchestrationError::LocalState => ProblemCode::StorageUnavailable,
            _ => ProblemCode::TrailBaseTrustUnavailable,
        },
{
    match error {
        TrailBaseOrchestrationError::ApplicationProblem(c) => c,
        TrailBaseOrchestrationError::InvalidInput => ProblemCode::IntegrityFailed,
        TrailBaseOrchestrationError::LocalState => ProblemCode::StorageUnavailable,
        _ => ProblemCode::TrailBaseTrustUnavailable,
    }
}

/// Maps a failed bootstrap cancellation to its problem code.
pub fn bootstrap_cancel_problem(error: TrailBaseOrchestrationError) -> (code: ProblemCode)
    ensures
        code == match error {
            TrailBaseOrchestrationError::ApplicationProblem(c) => c,
            TrailBaseOrchestrationError::LocalState => ProblemCode::StorageUnavailable,
            _ => ProblemCode::TrailBaseTrustUnavailable,
        },
{
    match error {
        TrailBaseOrchestrationError::ApplicationProblem(c) => c,
        TrailBaseOrchestrationError::LocalState => ProblemCode::StorageUnavailable,
        _ => ProblemCode::TrailBaseTrustUnavailable,
    }
}

/// Maps a failed operator callback to its problem code.
pub fn operator_callback_problem(error: TrailBaseOrchestrationError) -> (code: ProblemCode)
    ensures
        code == match error {
            TrailBaseOrchestrationError::ApplicationProblem(c) => c,
            TrailBaseOrchestrationError::InvalidInput => ProblemCode::TrailBaseProofInvalid,
            TrailBaseOrchestrationError::LocalState => ProblemCode::StorageUnavailable,
            TrailBaseOrchestrationError::LogoutUncertain => ProblemCode::TrailBaseSessionCleanupFailed,
            _ => ProblemCode::IdentityServiceUnavailable,
        },
{
    match error {
        TrailBaseOrchestrationError::ApplicationProblem(c) => c,
        TrailBaseOrchestrationError::InvalidInput => ProblemCode::TrailBaseProofInvalid,
        TrailBaseOrchestrationError::LocalState => ProblemCode::StorageUnavailable,
        TrailBaseOrchestrationError::LogoutUncertain => ProblemCode::TrailBaseSessionCleanupFailed,
        _ => ProblemCode::IdentityServiceUnavailable,
    }
}

/// A continuation problem that ends the continuation: the browser binding
/// or the TrailBase proof is invalid, so the continuation cookie is
/// cleared with the answer. Any other problem keeps the cookie so the
/// browser can still dismiss the attributable failure.
pub open spec fn continuation_problem_is_terminal_spec(code: ProblemCode) -> bool {
    code == ProblemCode::AuthBrowserBindingInvalid || code == ProblemCode::TrailBaseProofInvalid
}

pub fn continuation_problem_is_terminal(code: ProblemCode) -> (terminal: bool)
    ensures
        terminal == continuation_problem_is_terminal_spec(code),
{
    match code {
        ProblemCode::AuthBrowserBindingInvalid | ProblemCode::TrailBaseProofInvalid => true,
        _ => false,
    }
}

/// Whether a sign-in may start: no bearer credential, exactly the
/// boundary's origin and host, and a TrailBase orchestrator to start it.
pub open spec fn sign_in_admission(
    headers: RequestHeaders,
    boundary: BrowserBoundary,
    has_orchestrator: bool,
) -> Result<(), ProblemCode> {
    if headers.values("authorization"@).len() > 0 {
        Err(ProblemCode::Forbidden)
    } else if !boundary.admits(
        exact_text(headers.values("origin"@)),
        exact_text(headers.values("host"@)),
    ) {
        Err(ProblemCode::Forbidden)
    } else if !has_orchestrator {
        Err(ProblemCode::TrailBaseTrustUnavailable)
    } else {
        Ok(())
    }
}

/// Checks that a TrailBase sign-in may start.
pub fn admit_sign_in(headers: &RequestHeaders, boundary: &BrowserBoundary, has_orchestrator: bool) -> (r:
    Result<(), ProblemCode>)
    ensures
        r == sign_in_admission(*headers, *boundary, has_orchestrator),
{
    if headers.contains("authorization") {
        return Err(ProblemCode::Forbidden);
    }
    let origin = headers.exact("origin");
    let host = headers.exact("host");
    if !boundary.validate(&origin, &host) {
        return Err(ProblemCode::Forbidden);
    }
    if !has_orchestrator {
        return Err(ProblemCode::TrailBaseTrustUnavailable);
    }
    Ok(())
}

/// Whether the request names exactly the direct listener's host.
pub open spec fn is_exact_host(headers: RequestHeaders) -> bool {
    exact_text(headers.values("host"@)) == Some(FASTI_ACCESS_HOST@)
}

fn exact_host(headers: &RequestHeaders) -> (r: bool)
    ensures
        r == is_exact_host(*headers),
{
    let expected = chars_of(FASTI_ACCESS_HOST);
    match headers.exact("host") {
        Some(h) => chars_eq(&h, &expected),
        None => false,
    }
}

/// A secret cookie: present exactly once, in text headers, and 64
/// lowercase hexadecimal digits.
pub open spec fn secret_cookie_spec(headers: RequestHeaders, name: Seq<char>) -> Option<Seq<u8>> {
    match cookie_lookup(headers.values("cookie"@), name) {
        Ok(Some(v)) => if is_secret_hex(v) {
            Some(bytes_of_hex(v))
        } else {
            None
        },
        _ => None,
    }
}

/// Reads a secret cookie; ambiguous, missing or malformed cookies yield
/// `None`.
pub fn secret_cookie(headers: &RequestHeaders, name: &str) -> (r: Option<[u8; 32]>)
    ensures
        match r {
            Some(b) => secret_cookie_spec(*headers, name@) == Some(b@),
            None => secret_cookie_spec(*headers, name@).is_none(),
        },
{
    match cookie_value(headers, name) {
        Ok(Some(v)) => decode_secret_chars(&v),
        _ => None,
    }
}

/// The outcome of checking a continuation request: the digest of its
/// browser binding, or the problem that refuses it.
pub open spec fn continuation_binding_outcome(
    headers: RequestHeaders,
    boundary: BrowserBoundary,
    require_origin: bool,
) -> Result<Seq<u8>, ProblemCode> {
    if headers.values("authorization"@).len() > 0 || !is_exact_host(headers) {
        Err(ProblemCode::Forbidden)
    } else if require_origin && !boundary.admits(
        exact_text(headers.values("origin"@)),
        exact_text(headers.values("host"@)),
    ) {
        Err(ProblemCode::Forbidden)
    } else if !require_origin && !boundary.admits_read(exact_text(headers.values("host"@))) {
        Err(ProblemCode::Forbidden)
    } else {
        match secret_cookie_spec(headers, FASTI_ACCESS_CONTINUATION_COOKIE@) {
            Some(b) => Ok(sha256_digest(b)),
            None => Err(ProblemCode::AuthBrowserBindingInvalid),
        }
    }
}

/// Checks a continuation request and digests its browser binding: no
/// bearer credential, the exact host (and, for mutations, the exact
/// origin), and exactly one well-formed continuation cookie.
pub fn continuation_binding_digest(
    headers: &RequestHeaders,
    boundary: &BrowserBoundary,
    require_origin: bool,
) -> (r: Result<[u8; 32], ProblemCode>)
    ensures
        match r {
            Ok(d) => continuation_binding_outcome(*headers, *boundary, require_origin) == Ok::<
                Seq<u8>,
                ProblemCode,
            >(d@),
            Err(code) => continuation_binding_outcome(*headers, *boundary, require_origin)
                == Err::<Seq<u8>, ProblemCode>(code),
        },
{
    if headers.contains("authorization") || !exact_host(headers) {
        return Err(ProblemCode::Forbidden);
    }
    let host = headers.exact("host");
    let admitted = if require_origin {
        let origin = headers.exact("origin");
        boundary.validate(&origin, &host)
    } else {
        boundary.validate_read(&host)
    };
    if !admitted {
        return Err(ProblemCode::Forbidden);
    }
    match secret_cookie(headers, FASTI_ACCESS_CONTINUATION_COOKIE) {
        Some(binding) => Ok(sha256(&binding)),
        None => Err(ProblemCode::AuthBrowserBindingInvalid),
    }
}

/// What a TrailBase callback carries once admitted: the authorization code
/// and the browser binding it must match.
pub struct CallbackAdmission {
    pub code: String,
    pub binding: [u8; 32],
}

/// A callback is admitted only as a `GET` on the exact host, without a
/// bearer credential, with an exact code query and one well-formed binding
/// cookie.
pub open spec fn callback_admitted(
    is_get: bool,
    headers: RequestHeaders,
    raw_query: Option<Seq<char>>,
) -> Option<(Seq<char>, Seq<u8>)> {
    if !is_get || !is_exact_host(headers) || headers.values("authorization"@).len() > 0 {
        None
    } else {
        match callback_code(raw_query) {
            Some(code) => match secret_cookie_spec(headers, FASTI_ACCESS_BINDING_COOKIE@) {
                Some(b) => Some((code, b)),
                None => None,
            },
            None => None,
        }
    }
}

/// Admits a TrailBase callback, or `None` for the fixed failure redirect.
pub fn admit_callback(is_get: bool, headers: &RequestHeaders, raw_query: Option<&str>) -> (r:
    Option<CallbackAdmission>)
    ensures
        match r {
            Some(a) => callback_admitted(is_get, *headers, opt_str(raw_query)) == Some(
                (a.code@, a.binding@),
            ),
            None => callback_admitted(is_get, *headers, opt_str(raw_query)).is_none(),
        },
{
    if !is_get || !exact_host(headers) || headers.contains("authorization") {
        return None;
    }
    let code = match exact_callback_code(raw_query) {
        Some(c) => c,
        None => return None,
    };
    match secret_cookie(headers, FASTI_ACCESS_BINDING_COOKIE) {
        Some(binding) => Some(CallbackAdmission { code, binding }),
        None => None,
    }
}

/// How TrailBase answered an admitted callback.
pub enum CallbackOutcome {
    SessionCreated { created: CreatedSession, return_target: ReturnTarget },
    SelectionRequired { remaining_seconds: i64, return_target: ReturnTarget },
    Failed { target: Option<ReturnTarget>, continuation_remaining_seconds: Option<i64> },
}

/// The redirect for each callback outcome: a session sets its cookies; a
/// required selection or an attributable failure keeps the binding for
/// the continuation; any other failure returns to the failure redirect.
pub open spec fn outcome_redirect(
    outcome: CallbackOutcome,
    binding: Seq<u8>,
    correlation_id: Seq<char>,
) -> (Seq<char>, Seq<Seq<char>>) {
    match outcome {
        CallbackOutcome::SessionCreated { created, return_target } => (
            callback_location(return_target, correlation_id, true),
            callback_cookies(Some(created)),
        ),
        CallbackOutcome::SelectionRequired { remaining_seconds, return_target } => (
            selection_location(return_target, correlation_id, remaining_seconds, false),
            selection_cookies(binding, remaining_seconds),
        ),
        CallbackOutcome::Failed { target, continuation_remaining_seconds } => match (
            target,
            continuation_remaining_seconds,
        ) {
            (Some(t), Some(r)) => (
                selection_location(t, correlation_id, r, true),
                selection_cookies(binding, r),
            ),
            (t, _) => {
                let target = match t {
                    Some(x) => x,
                    None => ReturnTarget::ApplicationHome,
                };
                (callback_location(target, correlation_id, false), callback_cookies(None))
            },
        },
    }
}

/// Answers an admitted callback according to its outcome.
pub fn callback_outcome_redirect(
    outcome: &CallbackOutcome,
    binding: &[u8; 32],
    correlation_id: &str,
) -> (plan: RedirectPlan)
    ensures
        plan.is_see_other_no_store(),
        (plan.location@, plan.cookie_texts()) == outcome_redirect(
            *outcome,
            binding@,
            correlation_id@,
        ),
{
    match outcome {
        CallbackOutcome::SessionCreated { created, return_target } => {
            callback_redirect(*return_target, correlation_id, Some(created))
        },
        CallbackOutcome::SelectionRequired { remaining_seconds, return_target } => {
            callback_selection_redirect(
                *return_target,
                binding,
                *remaining_seconds,
                correlation_id,
                false,
            )
        },
        CallbackOutcome::Failed { target, continuation_remaining_seconds } => {
            match (target, continuation_remaining_seconds) {
                (Some(t), Some(r)) => callback_selection_redirect(
                    *t,
                    binding,
                    *r,
                    correlation_id,
                    true,
                ),
                (t, _) => {
                    let target = match t {
                        Some(x) => *x,
                        None => ReturnTarget::ApplicationHome,
                    };
                    callback_redirect(target, correlation_id, None)
                },
            }
        },
    }
}


/// Every answer to an admitted callback clears the one-use callback
/// binding first, whatever TrailBase answered.
pub proof fn lemma_callback_always_clears_binding(
    outcome: CallbackOutcome,
    binding: Seq<u8>,
    correlation_id: Seq<char>,
)
    ensures
        outcome_redirect(outcome, binding, correlation_id).1.len() >= 1,
        outcome_redirect(outcome, binding, correlation_id).1[0] == clear_binding_cookie_text(),
{
}

/// A callback that issued no session never sets session cookies: it only
/// clears the binding, or hands it to the continuation path.
pub proof fn lemma_failed_callback_sets_no_session(
    target: Option<ReturnTarget>,
    remaining: Option<i64>,
    binding: Seq<u8>,
    correlation_id: Seq<char>,
)
    ensures
        ({
            let cookies = outcome_redirect(
                CallbackOutcome::Failed { target, continuation_remaining_seconds: remaining },
                binding,
                correlation_id,
            ).1;
            cookies.len() <= 2 && (cookies.len() == 2 ==> cookies[1] == continuation_cookie_text(
                binding,
                remaining.unwrap() as nat,
            ))
        }),
{
}


/// The cookies a continuation answer sets when the kernel refused it: the
/// continuation cookie is cleared exactly when the refusal is terminal.
pub open spec fn continuation_problem_cookies_text(code: ProblemCode) -> Seq<Seq<char>> {
    if continuation_problem_is_terminal_spec(code) {
        seq![clear_continuation_cookie_text()]
    } else {
        seq![]
    }
}

/// The `Set-Cookie` values of a refused continuation request.
pub fn continuation_problem_cookies(code: ProblemCode) -> (r: Vec<String>)
    ensures
        cookies_view(r@) == continuation_problem_cookies_text(code),
{
    let mut r: Vec<String> = Vec::new();
    if continuation_problem_is_terminal(code) {
        r.push(clear_continuation_cookie());
    }
    assert(cookies_view(r@) =~= continuation_problem_cookies_text(code));
    r
}

/// The cookies of a completed continuation: the continuation cookie is
/// cleared and the new session's cookies are set.
pub open spec fn continuation_completed_cookies_text(created: CreatedSession) -> Seq<Seq<char>> {
    seq![
        clear_continuation_cookie_text(),
        session_cookie_text(created.session@, max_age_of(created.remaining_seconds)),
        csrf_cookie_text(created.csrf@, max_age_of(created.remaining_seconds)),
    ]
}

/// The `Set-Cookie` values that complete a continuation.
pub fn continuation_completed_cookies(created: &CreatedSession) -> (r: Vec<String>)
    ensures
        cookies_view(r@) == continuation_completed_cookies_text(*created),
{
    let mut r: Vec<String> = Vec::new();
    r.push(clear_continuation_cookie());
    let (session, csrf) = session_cookies(&created.session, &created.csrf, created.remaining_seconds);
    r.push(session);
    r.push(csrf);
    assert(cookies_view(r@) =~= continuation_completed_cookies_text(*created));
    r
}

/// A canonical SHA-256 digest: `sha256:` and 64 lowercase hexadecimal
/// digits.
pub open spec fn sha256_text(text: Seq<char>) -> Option<Seq<u8>> {
    if has_prefix(text, "sha256:"@) && is_secret_hex(text.subrange(7, text.len() as int)) {
        Some(bytes_of_hex(text.subrange(7, text.len() as int)))
    } else {
        None
    }
}

/// Parses a canonical SHA-256 digest, such as a continuation's candidate
/// revision.
pub fn parse_sha256_digest(text: &str) -> (r: Option<[u8; 32]>)
    ensures
        match r {
            Some(d) => sha256_text(text@) == Some(d@),
            None => sha256_text(text@).is_none(),
        },
{
    let cs = chars_of(text);
    let prefix = chars_of("sha256:");
    proof {
        reveal_strlit("sha256:");
    }
    match strip_prefix_chars(&cs, &prefix) {
        Some(rest) => decode_secret_chars(&rest),
        None => None,
    }
}

} // verus!
