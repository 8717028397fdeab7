//! Response shaping of the browser authentication routes: the session and
//! CSRF cookies, their clearing, the cache headers of every response and
//! the cookie lifetime of a new session.

use crate::text::{chars_of, decimal, push_decimal, push_str, string_from_chars};
use vstd::prelude::*;

verus! {

/// `; Secure` when cookies are only sent over TLS, else nothing.
pub open spec fn secure_suffix(secure: bool) -> Seq<char> {
    if secure {
        "; Secure"@
    } else {
        ""@
    }
}

/// The `Set-Cookie` value of the browser session: script cannot read it
/// and cross-site requests do not carry it.
pub open spec fn session_cookie_text(value: Seq<char>, max_age_seconds: u32, secure: bool) -> Seq<char> {
    "fasti_session="@ + value + "; Path=/; HttpOnly; SameSite=Strict; Max-Age="@ + decimal(
        max_age_seconds as nat,
    ) + secure_suffix(secure)
}

/// The `Set-Cookie` value of the double-submit CSRF token, which script
/// must be able to read.
pub open spec fn csrf_cookie_text(value: Seq<char>, max_age_seconds: u32, secure: bool) -> Seq<char> {
    "fasti_csrf="@ + value + "; Path=/; SameSite=Strict; Max-Age="@ + decimal(
        max_age_seconds as nat,
    ) + secure_suffix(secure)
}

fn push_secure(out: &mut Vec<char>, secure: bool)
    ensures
        final(out)@ == old(out)@ + secure_suffix(secure),
{
    if secure {
        push_str(out, "; Secure");
    } else {
        assert(old(out)@ + ""@ =~= old(out)@) by {
            reveal_strlit("");
        }
    }
}

/// The session cookie for `value`, living `max_age_seconds`.
pub fn session_cookie(value: &str, max_age_seconds: u32, secure: bool) -> (cookie: String)
    ensures
        cookie@ == session_cookie_text(value@, max_age_seconds, secure),
{
    let mut out: Vec<char> = Vec::new();
    push_str(&mut out, "fasti_session=");
    push_str(&mut out, value);
    push_str(&mut out, "; Path=/; HttpOnly; SameSite=Strict; Max-Age=");
    push_decimal(&mut out, max_age_seconds as u64);
    push_secure(&mut out, secure);
    assert(out@ =~= session_cookie_text(value@, max_age_seconds, secure));
    string_from_chars(&out)
}

/// The CSRF cookie for `value`, living `max_age_seconds`.
pub fn csrf_cookie(value: &str, max_age_seconds: u32, secure: bool) -> (cookie: String)
    ensures
        cookie@ == csrf_cookie_text(value@, max_age_seconds, secure),
{
    let mut out: Vec<char> = Vec::new();
    push_str(&mut out, "fasti_csrf=");
    push_str(&mut out, value);
    push_str(&mut out, "; Path=/; SameSite=Strict; Max-Age=");
    push_decimal(&mut out, max_age_seconds as u64);
    push_secure(&mut out, secure);
    assert(out@ =~= csrf_cookie_text(value@, max_age_seconds, secure));
    string_from_chars(&out)
}

/// One response header.
pub struct ResponseHeader {
    pub name: String,
    pub value: String,
}

pub open spec fn header_view(h: ResponseHeader) -> (Seq<char>, Seq<char>) {
    (h.name@, h.value@)
}

pub open spec fn headers_view(v: Seq<ResponseHeader>) -> Seq<(Seq<char>, Seq<char>)> {
    Seq::new(v.len(), |i: int| header_view(v[i]))
}

/// The headers every browser authentication response carries: it is
/// private, never stored, and varies with the cookie.
pub open spec fn no_store_text() -> Seq<(Seq<char>, Seq<char>)> {
    seq![
        ("cache-control"@, "private, no-store"@),
        ("pragma"@, "no-cache"@),
        ("vary"@, "Cookie"@),
    ]
}

fn header(name: &str, value: &str) -> (h: ResponseHeader)
    ensures
        header_view(h) == (name@, value@),
{
    ResponseHeader {
        name: string_from_chars(&chars_of(name)),
        value: string_from_chars(&chars_of(value)),
    }
}

/// The cache headers of a browser authentication response.
pub fn no_store_headers() -> (headers: Vec<ResponseHeader>)
    ensures
        headers_view(headers@) == no_store_text(),
{
    let mut headers: Vec<ResponseHeader> = Vec::new();
    headers.push(header("cache-control", "private, no-store"));
    headers.push(header("pragma", "no-cache"));
    headers.push(header("vary", "Cookie"));
    assert(headers_view(headers@) =~= no_store_text());
    headers
}

/// Appends one `Set-Cookie` header.
pub fn append_cookie(headers: &mut Vec<ResponseHeader>, cookie: String)
    ensures
        headers_view(final(headers)@) == headers_view(old(headers)@).push(
            ("set-cookie"@, cookie@),
        ),
{
    headers.push(ResponseHeader { name: string_from_chars(&chars_of("set-cookie")), value: cookie });
    assert(headers_view(headers@) =~= headers_view(old(headers)@).push(("set-cookie"@, cookie@)));
}

/// The headers that end a browser session: the cache headers, then both
/// cookies emptied and expired at once.
pub fn clear_cookies(secure: bool) -> (headers: Vec<ResponseHeader>)
    ensures
        headers_view(headers@) == no_store_text().push(
            ("set-cookie"@, session_cookie_text(""@, 0, secure)),
        ).push(("set-cookie"@, csrf_cookie_text(""@, 0, secure))),
{
    let mut headers = no_store_headers();
    append_cookie(&mut headers, session_cookie("", 0, secure));
    append_cookie(&mut headers, csrf_cookie("", 0, secure));
    headers
}

/// Cookie lifetime of a session of `minutes` minutes, in seconds,
/// saturating at the largest `u32`.
pub fn session_max_age(minutes: u32) -> (seconds: u32)
    ensures
        seconds == if minutes * 60 > u32::MAX {
            u32::MAX as int
        } else {
            minutes * 60
        },
{
    if minutes > u32::MAX / 60 {
        u32::MAX
    } else {
        minutes * 60
    }
}

} // verus!
