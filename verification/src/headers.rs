//! Request headers as the HTTP adapter reads them, and the authentication
//! decisions made from them: exact single-valued headers, cookie lookup
//! that refuses ambiguity, bearer and bootstrap secrets, and the browser
//! session boundary.

use crate::problem::ProblemCode;
use crate::secrets::{bearer_payload, decode_secret_chars, is_secret_hex, strip_bearer, bytes_of_hex};
use crate::text::{
    chars_eq, chars_of, is_whitespace, is_whitespace_char, segments, split_chars,
    split_once, split_once_chars, string_from_chars, trim, trim_chars,
};
use vstd::prelude::*;

verus! {

/// One header line: its lower-case name and its value, or `None` when the
/// value is not visible ASCII text.
pub struct HeaderField {
    pub name: String,
    pub value: Option<String>,
}

/// Every header line of a request, in the order received.
pub struct RequestHeaders {
    pub fields: Vec<HeaderField>,
}

pub open spec fn text_view(v: Option<String>) -> Option<Seq<char>> {
    match v {
        Some(s) => Some(s@),
        None => None,
    }
}

pub open spec fn opt_chars(v: Option<Vec<char>>) -> Option<Seq<char>> {
    match v {
        Some(s) => Some(s@),
        None => None,
    }
}

/// The values of every line named `name`, in order.
pub open spec fn values_named(fields: Seq<HeaderField>, name: Seq<char>) -> Seq<
    Option<Seq<char>>,
>
    decreases fields.len(),
{
    if fields.len() == 0 {
        seq![]
    } else {
        let rest = values_named(fields.drop_last(), name);
        if fields.last().name@ == name {
            rest.push(text_view(fields.last().value))
        } else {
            rest
        }
    }
}

/// The value `HeaderMap::get` returns, as text: the first line's value.
pub open spec fn first_text(values: Seq<Option<Seq<char>>>) -> Option<Seq<char>> {
    if values.len() > 0 {
        values[0]
    } else {
        None
    }
}

/// The value of a header that occurs exactly once and is text.
pub open spec fn exact_text(values: Seq<Option<Seq<char>>>) -> Option<Seq<char>> {
    if values.len() == 1 {
        values[0]
    } else {
        None
    }
}

impl RequestHeaders {
    pub open spec fn values(&self, name: Seq<char>) -> Seq<Option<Seq<char>>> {
        values_named(self.fields@, name)
    }

    /// Every value of the lines named `name`, in order.
    pub fn values_of(&self, name: &str) -> (r: Vec<Option<Vec<char>>>)
        ensures
            r@.len() == self.values(name@).len(),
            forall|i: int| 0 <= i < r@.len() ==> #[trigger] opt_chars(r@[i]) == self.values(name@)[i],
    {
        let wanted = chars_of(name);
        let mut r: Vec<Option<Vec<char>>> = Vec::new();
        let mut i: usize = 0;
        while i < self.fields.len()
            invariant
                i <= self.fields@.len(),
                wanted@ == name@,
                r@.len() == values_named(self.fields@.subrange(0, i as int), name@).len(),
                forall|j: int|
                    0 <= j < r@.len() ==> #[trigger] opt_chars(r@[j]) == values_named(
                        self.fields@.subrange(0, i as int),
                        name@,
                    )[j],
            decreases self.fields@.len() - i,
        {
            let field = &self.fields[i];
            assert(self.fields@.subrange(0, i + 1).drop_last() =~= self.fields@.subrange(
                0,
                i as int,
            ));
            let field_name = chars_of(field.name.as_str());
            if chars_eq(&field_name, &wanted) {
                let value = match &field.value {
                    Some(text) => Some(chars_of(text.as_str())),
                    None => None,
                };
                r.push(value);
            }
            i = i + 1;
        }
        assert(self.fields@.subrange(0, self.fields@.len() as int) =~= self.fields@);
        r
    }

    /// Whether any line is named `name`.
    pub fn contains(&self, name: &str) -> (r: bool)
        ensures
            r == (self.values(name@).len() > 0),
    {
        let values = self.values_of(name);
        values.len() > 0
    }

    /// The first value named `name`, when it is text.
    pub fn first(&self, name: &str) -> (r: Option<Vec<char>>)
        ensures
            opt_chars(r) == first_text(self.values(name@)),
    {
        let mut values = self.values_of(name);
        if values.len() == 0 {
            return None;
        }
        let first = values.remove(0);
        first
    }

    /// The value of a header that occurs exactly once and is text; `None`
    /// when it is missing, repeated or not text.
    pub fn exact(&self, name: &str) -> (r: Option<Vec<char>>)
        ensures
            opt_chars(r) == exact_text(self.values(name@)),
    {
        let mut values = self.values_of(name);
        if values.len() != 1 {
            return None;
        }
        let only = values.remove(0);
        only
    }
}

/// The cookie value a `name=value` pair holds for `name`, after trimming the
/// pair and splitting it at its first `=`.
pub open spec fn cookie_pair_value(segment: Seq<char>, name: Seq<char>) -> Option<Seq<char>> {
    match split_once(trim(segment), '=') {
        Some((n, v)) => if n == name {
            Some(v)
        } else {
            None
        },
        None => None,
    }
}

/// The values for `name` among the `;`-separated pairs `segs`, in order.
pub open spec fn segment_matches(segs: Seq<Seq<char>>, name: Seq<char>) -> Seq<Seq<char>>
    decreases segs.len(),
{
    if segs.len() == 0 {
        seq![]
    } else {
        let rest = segment_matches(segs.drop_last(), name);
        match cookie_pair_value(segs.last(), name) {
            Some(v) => rest.push(v),
            None => rest,
        }
    }
}

/// The values for `name` across every `Cookie` line, in order.
pub open spec fn cookie_matches(values: Seq<Option<Seq<char>>>, name: Seq<char>) -> Seq<
    Seq<char>,
>
    decreases values.len(),
{
    if values.len() == 0 {
        seq![]
    } else {
        cookie_matches(values.drop_last(), name) + match values.last() {
            Some(t) => segment_matches(segments(t, ';'), name),
            None => seq![],
        }
    }
}

pub open spec fn all_text(values: Seq<Option<Seq<char>>>) -> bool {
    forall|i: int| 0 <= i < values.len() ==> (#[trigger] values[i]).is_some()
}

/// A cookie lookup: refused when a `Cookie` line is not text or the cookie
/// occurs more than once, otherwise its one value or nothing.
pub open spec fn cookie_lookup(values: Seq<Option<Seq<char>>>, name: Seq<char>) -> Result<
    Option<Seq<char>>,
    (),
> {
    if !all_text(values) {
        Err(())
    } else {
        let m = cookie_matches(values, name);
        if m.len() == 0 {
            Ok(None)
        } else if m.len() == 1 {
            Ok(Some(m[0]))
        } else {
            Err(())
        }
    }
}

proof fn lemma_cookie_matches_grow(values: Seq<Option<Seq<char>>>, name: Seq<char>, j: int)
    requires
        0 <= j <= values.len(),
    ensures
        cookie_matches(values.subrange(0, j), name).len() <= cookie_matches(values, name).len(),
        cookie_matches(values.subrange(0, j), name) == cookie_matches(values, name).subrange(
            0,
            cookie_matches(values.subrange(0, j), name).len() as int,
        ),
    decreases values.len() - j,
{
    if j < values.len() {
        lemma_cookie_matches_grow(values.drop_last(), name, j);
        assert(values.drop_last().subrange(0, j) =~= values.subrange(0, j));
        let a = cookie_matches(values.drop_last(), name);
        let full = cookie_matches(values, name);
        assert(full.subrange(0, a.len() as int) =~= a);
        let p = cookie_matches(values.subrange(0, j), name);
        assert(full.subrange(0, p.len() as int) =~= a.subrange(0, p.len() as int));
    } else {
        assert(values.subrange(0, j) =~= values);
        let full = cookie_matches(values, name);
        assert(full.subrange(0, full.len() as int) =~= full);
    }
}

proof fn lemma_not_all_text(values: Seq<Option<Seq<char>>>, i: int)
    requires
        0 <= i < values.len(),
        values[i].is_none(),
    ensures
        !all_text(values),
{
}

/// The pairs of one `Cookie` line that name `name`.
fn pair_matches(text: &[char], name: &[char]) -> (r: Vec<Vec<char>>)
    ensures
        r@.len() == segment_matches(segments(text@, ';'), name@).len(),
        forall|i: int|
            0 <= i < r@.len() ==> #[trigger] r@[i]@ == segment_matches(
                segments(text@, ';'),
                name@,
            )[i],
{
    let segs = split_chars(text, ';');
    let ghost ss = segments(text@, ';');
    let mut r: Vec<Vec<char>> = Vec::new();
    let mut k: usize = 0;
    while k < segs.len()
        invariant
            k <= segs@.len(),
            segs@.len() == ss.len(),
            forall|i: int| 0 <= i < segs@.len() ==> #[trigger] segs@[i]@ == ss[i],
            r@.len() == segment_matches(ss.subrange(0, k as int), name@).len(),
            forall|i: int|
                0 <= i < r@.len() ==> #[trigger] r@[i]@ == segment_matches(
                    ss.subrange(0, k as int),
                    name@,
                )[i],
        decreases segs@.len() - k,
    {
        assert(ss.subrange(0, k + 1).drop_last() =~= ss.subrange(0, k as int));
        assert(segs@[k as int]@ == ss[k as int]);
        let trimmed = trim_chars(&segs[k]);
        match split_once_chars(&trimmed, '=') {
            Some((n, v)) => {
                if chars_eq(&n, name) {
                    r.push(v);
                }
            },
            None => {},
        }
        k = k + 1;
    }
    assert(ss.subrange(0, ss.len() as int) =~= ss);
    r
}

/// Looks a cookie up across every `Cookie` line: `Err` when a line is not
/// text or the cookie occurs twice, otherwise the one value or `None`.
pub fn cookie_value(headers: &RequestHeaders, name: &str) -> (r: Result<Option<Vec<char>>, ()>)
    ensures
        r is Ok ==> cookie_lookup(headers.values("cookie"@), name@)
            == Ok::<Option<Seq<char>>, ()>(opt_chars(r->Ok_0)),
        r is Err ==> cookie_lookup(headers.values("cookie"@), name@) is Err,
{
    let wanted = chars_of(name);
    let values = headers.values_of("cookie");
    let ghost vals = headers.values("cookie"@);
    let mut found: Option<Vec<char>> = None;
    let mut i: usize = 0;
    while i < values.len()
        invariant
            i <= values@.len(),
            wanted@ == name@,
            vals == headers.values("cookie"@),
            values@.len() == vals.len(),
            forall|j: int| 0 <= j < values@.len() ==> #[trigger] opt_chars(values@[j]) == vals[j],
            all_text(vals.subrange(0, i as int)),
            cookie_matches(vals.subrange(0, i as int), name@).len() <= 1,
            opt_chars(found) == (if cookie_matches(vals.subrange(0, i as int), name@).len() == 1 {
                Some(cookie_matches(vals.subrange(0, i as int), name@)[0])
            } else {
                None
            }),
        decreases values@.len() - i,
    {
        let ghost prefix = vals.subrange(0, i as int);
        let ghost next = vals.subrange(0, i + 1);
        assert(next.drop_last() =~= prefix);
        assert(opt_chars(values@[i as int]) == vals[i as int]);
        match &values[i] {
            None => {
                proof {
                    lemma_not_all_text(vals, i as int);
                }
                return Err(());
            },
            Some(text) => {
                let matches = pair_matches(text, &wanted);
                let ghost seg = segment_matches(segments(text@, ';'), name@);
                assert(cookie_matches(next, name@) == cookie_matches(prefix, name@) + seg);
                let mut k: usize = 0;
                while k < matches.len()
                    invariant
                        vals == headers.values("cookie"@),
                        i < vals.len(),
                        prefix == vals.subrange(0, i as int),
                        next == vals.subrange(0, i + 1),
                        cookie_matches(next, name@) == cookie_matches(prefix, name@) + seg,
                        k <= matches@.len(),
                        matches@.len() == seg.len(),
                        forall|j: int| 0 <= j < matches@.len() ==> #[trigger] matches@[j]@ == seg[j],
                        cookie_matches(prefix, name@).len() + k <= 1,
                        opt_chars(found) == (if cookie_matches(prefix, name@).len() + k == 1 {
                            Some((cookie_matches(prefix, name@) + seg)[0])
                        } else {
                            None
                        }),
                    decreases matches@.len() - k,
                {
                    if found.is_some() {
                        proof {
                            lemma_cookie_matches_grow(vals, name@, i + 1);
                        }
                        return Err(());
                    }
                    found = Some(matches[k].clone());
                    assert(matches@[k as int]@ == seg[k as int]);
                    k = k + 1;
                }
                proof {
                    assert forall|j: int| 0 <= j < next.len() implies (#[trigger] next[j]).is_some() by {
                        if j < i {
                            assert(next[j] == prefix[j]);
                        }
                    }
                }
            },
        }
        i = i + 1;
    }
    assert(vals.subrange(0, vals.len() as int) =~= vals);
    Ok(found)
}


/// The characters after `Bearer ` in the first `Authorization` value, when
/// they are non-empty and hold no white space.
pub open spec fn bearer_token(authorization: Seq<Option<Seq<char>>>) -> Option<Seq<char>> {
    match first_text(authorization) {
        Some(v) => match bearer_payload(v) {
            Some(t) => if t.len() > 0 && (forall|i: int| 0 <= i < t.len() ==> !is_whitespace(
                #[trigger] t[i],
            )) {
                Some(t)
            } else {
                None
            },
            None => None,
        },
        None => None,
    }
}

/// The 32 bytes a hexadecimal secret denotes, when it is one.
pub open spec fn secret_from_text(t: Option<Seq<char>>) -> Option<Seq<u8>> {
    match t {
        Some(v) => if is_secret_hex(v) {
            Some(bytes_of_hex(v))
        } else {
            None
        },
        None => None,
    }
}

fn has_whitespace(t: &[char]) -> (r: bool)
    ensures
        r == exists|i: int| 0 <= i < t@.len() && is_whitespace(#[trigger] t@[i]),
{
    let mut i: usize = 0;
    while i < t.len()
        invariant
            i <= t@.len(),
            forall|j: int| 0 <= j < i ==> !is_whitespace(#[trigger] t@[j]),
        decreases t@.len() - i,
    {
        if is_whitespace_char(t[i]) {
            return true;
        }
        i = i + 1;
    }
    false
}

/// The bearer token of the `Authorization` header.
pub fn bearer_token_of(headers: &RequestHeaders) -> (r: Option<Vec<char>>)
    ensures
        opt_chars(r) == bearer_token(headers.values("authorization"@)),
{
    let value = headers.first("authorization");
    match value {
        Some(v) => match strip_bearer(&v) {
            Some(t) => {
                if t.len() > 0 && !has_whitespace(&t) {
                    Some(t)
                } else {
                    None
                }
            },
            None => None,
        },
        None => None,
    }
}

fn secret_of_chars(t: Option<Vec<char>>) -> (r: Option<[u8; 32]>)
    ensures
        match r {
            Some(b) => secret_from_text(opt_chars(t)) == Some(b@),
            None => secret_from_text(opt_chars(t)).is_none(),
        },
{
    match t {
        Some(v) => decode_secret_chars(&v),
        None => None,
    }
}

/// The bootstrap secret presented to node initialization: a bearer token
/// of 64 lowercase hexadecimal digits, else `Forbidden`.
pub fn bootstrap_secret(headers: &RequestHeaders) -> (r: Result<[u8; 32], ProblemCode>)
    ensures
        match r {
            Ok(b) => secret_from_text(bearer_token(headers.values("authorization"@))) == Some(b@),
            Err(code) => code == ProblemCode::Forbidden && secret_from_text(
                bearer_token(headers.values("authorization"@)),
            ).is_none(),
        },
{
    match secret_of_chars(bearer_token_of(headers)) {
        Some(b) => Ok(b),
        None => Err(ProblemCode::Forbidden),
    }
}

/// Name of the browser-session cookie.
pub const SESSION_COOKIE: &'static str = "__Host-fasti_session";

/// Name of the double-submit CSRF cookie.
pub const CSRF_COOKIE: &'static str = "__Host-fasti_csrf";

/// Name of the header that repeats the CSRF cookie.
pub const CSRF_HEADER: &'static str = "x-csrf-token";

/// What an application credential request yields: the bearer secret, or
/// `AuthenticationFailed` when a browser-session cookie is also present,
/// the cookie header is ambiguous, or the bearer token is not a secret.
pub open spec fn bearer_outcome(
    authorization: Seq<Option<Seq<char>>>,
    cookies: Seq<Option<Seq<char>>>,
) -> Result<Seq<u8>, ProblemCode> {
    match cookie_lookup(cookies, "__Host-fasti_session"@) {
        Err(()) => Err(ProblemCode::AuthenticationFailed),
        Ok(Some(_)) => Err(ProblemCode::AuthenticationFailed),
        Ok(None) => match secret_from_text(bearer_token(authorization)) {
            Some(b) => Ok(b),
            None => Err(ProblemCode::AuthenticationFailed),
        },
    }
}

/// Extracts the bearer credential of a capability-scoped route.
pub fn bearer_secret(headers: &RequestHeaders) -> (r: Result<[u8; 32], ProblemCode>)
    ensures
        match r {
            Ok(b) => bearer_outcome(headers.values("authorization"@), headers.values("cookie"@))
                == Ok::<Seq<u8>, ProblemCode>(b@),
            Err(code) => bearer_outcome(
                headers.values("authorization"@),
                headers.values("cookie"@),
            ) == Err::<Seq<u8>, ProblemCode>(code),
        },
{
    match cookie_value(headers, SESSION_COOKIE) {
        Err(()) => Err(ProblemCode::AuthenticationFailed),
        Ok(Some(_)) => Err(ProblemCode::AuthenticationFailed),
        Ok(None) => match secret_of_chars(bearer_token_of(headers)) {
            Some(b) => Ok(b),
            None => Err(ProblemCode::AuthenticationFailed),
        },
    }
}

/// The origin and host a browser request must carry exactly.
pub struct BrowserBoundary {
    pub origin: String,
    pub host: String,
}

impl BrowserBoundary {
    /// A mutation is admitted only with exactly the boundary's origin and host.
    pub open spec fn admits(&self, origin: Option<Seq<char>>, host: Option<Seq<char>>) -> bool {
        origin == Some(self.origin@) && host == Some(self.host@)
    }

    /// A read is admitted only with exactly the boundary's host.
    pub open spec fn admits_read(&self, host: Option<Seq<char>>) -> bool {
        host == Some(self.host@)
    }

    pub fn validate(&self, origin: &Option<Vec<char>>, host: &Option<Vec<char>>) -> (r: bool)
        ensures
            r == self.admits(opt_chars(*origin), opt_chars(*host)),
    {
        let expected_origin = chars_of(self.origin.as_str());
        let expected_host = chars_of(self.host.as_str());
        match (origin, host) {
            (Some(o), Some(h)) => chars_eq(o, &expected_origin) && chars_eq(h, &expected_host),
            _ => false,
        }
    }

    pub fn validate_read(&self, host: &Option<Vec<char>>) -> (r: bool)
        ensures
            r == self.admits_read(opt_chars(*host)),
    {
        let expected_host = chars_of(self.host.as_str());
        match host {
            Some(h) => chars_eq(h, &expected_host),
            None => false,
        }
    }
}

/// The browser boundary of the direct loopback listener: the fixed Fasti
/// access origin and host.
pub fn direct_boundary() -> (b: BrowserBoundary)
    ensures
        b.origin@ == crate::FASTI_ACCESS_ORIGIN@,
        b.host@ == crate::FASTI_ACCESS_HOST@,
{
    BrowserBoundary {
        origin: string_from_chars(&chars_of(crate::FASTI_ACCESS_ORIGIN)),
        host: string_from_chars(&chars_of(crate::FASTI_ACCESS_HOST)),
    }
}

/// The session secret of a browser read, or why it is refused.
pub open spec fn browser_read_outcome(
    authorization: Seq<Option<Seq<char>>>,
    cookies: Seq<Option<Seq<char>>>,
    host: Seq<Option<Seq<char>>>,
    boundary: BrowserBoundary,
) -> Result<Seq<u8>, ProblemCode> {
    if authorization.len() > 0 {
        Err(ProblemCode::AuthenticationFailed)
    } else {
        match cookie_lookup(cookies, "__Host-fasti_session"@) {
            Ok(Some(v)) => if !is_secret_hex(v) {
                Err(ProblemCode::BrowserSessionRevoked)
            } else if !boundary.admits_read(first_text(host)) {
                Err(ProblemCode::BrowserSessionRevoked)
            } else {
                Ok(bytes_of_hex(v))
            },
            _ => Err(ProblemCode::BrowserSessionRevoked),
        }
    }
}

/// Admits a browser-session read: no `Authorization` header, exactly one
/// well-formed session cookie, and the boundary's host.
pub fn browser_session_read(headers: &RequestHeaders, boundary: &BrowserBoundary) -> (r: Result<
    [u8; 32],
    ProblemCode,
>)
    ensures
        match r {
            Ok(b) => browser_read_outcome(
                headers.values("authorization"@),
                headers.values("cookie"@),
                headers.values("host"@),
                *boundary,
            ) == Ok::<Seq<u8>, ProblemCode>(b@),
            Err(code) => browser_read_outcome(
                headers.values("authorization"@),
                headers.values("cookie"@),
                headers.values("host"@),
                *boundary,
            ) == Err::<Seq<u8>, ProblemCode>(code),
        },
{
    if headers.contains("authorization") {
        return Err(ProblemCode::AuthenticationFailed);
    }
    let session = match cookie_value(headers, SESSION_COOKIE) {
        Ok(Some(v)) => v,
        _ => return Err(ProblemCode::BrowserSessionRevoked),
    };
    let secret = match decode_secret_chars(&session) {
        Some(b) => b,
        None => return Err(ProblemCode::BrowserSessionRevoked),
    };
    let host = headers.first("host");
    if !boundary.validate_read(&host) {
        return Err(ProblemCode::BrowserSessionRevoked);
    }
    Ok(secret)
}

/// The session and CSRF secrets of a browser mutation, or why it is refused.
pub open spec fn browser_mutation_outcome(
    authorization: Seq<Option<Seq<char>>>,
    cookies: Seq<Option<Seq<char>>>,
    host: Seq<Option<Seq<char>>>,
    origin: Seq<Option<Seq<char>>>,
    csrf_header: Seq<Option<Seq<char>>>,
    boundary: BrowserBoundary,
) -> Result<(Seq<u8>, Seq<u8>), ProblemCode> {
    if authorization.len() > 0 {
        Err(ProblemCode::AuthenticationFailed)
    } else {
        match cookie_lookup(cookies, "__Host-fasti_session"@) {
            Ok(Some(session)) => if !is_secret_hex(session) {
                Err(ProblemCode::Forbidden)
            } else if !boundary.admits(first_text(origin), first_text(host)) {
                Err(ProblemCode::Forbidden)
            } else {
                match cookie_lookup(cookies, "__Host-fasti_csrf"@) {
                    Ok(Some(csrf_cookie)) => match first_text(csrf_header) {
                        Some(presented) => if is_secret_hex(csrf_cookie) && is_secret_hex(presented)
                            && bytes_of_hex(csrf_cookie) == bytes_of_hex(presented) {
                            Ok((bytes_of_hex(session), bytes_of_hex(presented)))
                        } else {
                            Err(ProblemCode::Forbidden)
                        },
                        None => Err(ProblemCode::Forbidden),
                    },
                    _ => Err(ProblemCode::Forbidden),
                }
            },
            _ => Err(ProblemCode::Forbidden),
        }
    }
}

/// Admits a browser-session mutation: no `Authorization` header, exactly
/// one well-formed session cookie, the boundary's origin and host, and a
/// CSRF header equal to the one CSRF cookie.
pub fn browser_session_mutation(headers: &RequestHeaders, boundary: &BrowserBoundary) -> (r: Result<
    ([u8; 32], [u8; 32]),
    ProblemCode,
>)
    ensures
        match r {
            Ok((s, c)) => browser_mutation_outcome(
                headers.values("authorization"@),
                headers.values("cookie"@),
                headers.values("host"@),
                headers.values("origin"@),
                headers.values("x-csrf-token"@),
                *boundary,
            ) == Ok::<(Seq<u8>, Seq<u8>), ProblemCode>((s@, c@)),
            Err(code) => browser_mutation_outcome(
                headers.values("authorization"@),
                headers.values("cookie"@),
                headers.values("host"@),
                headers.values("origin"@),
                headers.values("x-csrf-token"@),
                *boundary,
            ) == Err::<(Seq<u8>, Seq<u8>), ProblemCode>(code),
        },
{
    if headers.contains("authorization") {
        return Err(ProblemCode::AuthenticationFailed);
    }
    let session = match cookie_value(headers, SESSION_COOKIE) {
        Ok(Some(v)) => v,
        _ => return Err(ProblemCode::Forbidden),
    };
    let session_secret = match decode_secret_chars(&session) {
        Some(b) => b,
        None => return Err(ProblemCode::Forbidden),
    };
    let host = headers.first("host");
    let origin = headers.first("origin");
    if !boundary.validate(&origin, &host) {
        return Err(ProblemCode::Forbidden);
    }
    let csrf_cookie = match cookie_value(headers, CSRF_COOKIE) {
        Ok(Some(v)) => v,
        _ => return Err(ProblemCode::Forbidden),
    };
    let csrf_header = match headers.first(CSRF_HEADER) {
        Some(v) => v,
        None => return Err(ProblemCode::Forbidden),
    };
    let cookie_bytes = match decode_secret_chars(&csrf_cookie) {
        Some(b) => b,
        None => return Err(ProblemCode::Forbidden),
    };
    let header_bytes = match decode_secret_chars(&csrf_header) {
        Some(b) => b,
        None => return Err(ProblemCode::Forbidden),
    };
    if !crate::secrets::constant_time_eq(&cookie_bytes, &header_bytes) {
        return Err(ProblemCode::Forbidden);
    }
    Ok((session_secret, header_bytes))
}


/// How a request on the application surface authenticated.
pub enum ApplicationAuthentication {
    /// An enrolled client credential.
    Bearer([u8; 32]),
    /// A browser session reading state.
    BrowserRead([u8; 32]),
    /// A browser session mutating state, with its verified CSRF secret.
    BrowserMutation([u8; 32], [u8; 32]),
}

pub open spec fn application_authentication_view(a: ApplicationAuthentication) -> (
    int,
    Seq<u8>,
    Seq<u8>,
) {
    match a {
        ApplicationAuthentication::Bearer(b) => (0, b@, seq![]),
        ApplicationAuthentication::BrowserRead(s) => (1, s@, seq![]),
        ApplicationAuthentication::BrowserMutation(s, c) => (2, s@, c@),
    }
}

/// How an application request authenticates, or why it is refused: a
/// bearer credential and a browser session together are refused; a bearer
/// credential alone is used; otherwise the browser session is checked
/// against the listener's boundary, and refused where there is none.
pub open spec fn application_outcome(
    authorization: Seq<Option<Seq<char>>>,
    cookies: Seq<Option<Seq<char>>>,
    host: Seq<Option<Seq<char>>>,
    origin: Seq<Option<Seq<char>>>,
    csrf_header: Seq<Option<Seq<char>>>,
    boundary: Option<BrowserBoundary>,
    mutation: bool,
) -> Result<(int, Seq<u8>, Seq<u8>), ProblemCode> {
    match cookie_lookup(cookies, "__Host-fasti_session"@) {
        Err(()) => Err(ProblemCode::AuthenticationFailed),
        Ok(session) => if authorization.len() > 0 && session.is_some() {
            Err(ProblemCode::AuthenticationFailed)
        } else if authorization.len() > 0 {
            match bearer_outcome(authorization, cookies) {
                Ok(b) => Ok((0, b, seq![])),
                Err(e) => Err(e),
            }
        } else {
            match boundary {
                None => Err(ProblemCode::AuthenticationFailed),
                Some(bd) => if mutation {
                    match browser_mutation_outcome(
                        authorization,
                        cookies,
                        host,
                        origin,
                        csrf_header,
                        bd,
                    ) {
                        Ok((s, c)) => Ok((2, s, c)),
                        Err(e) => Err(e),
                    }
                } else {
                    match browser_read_outcome(authorization, cookies, host, bd) {
                        Ok(s) => Ok((1, s, seq![])),
                        Err(e) => Err(e),
                    }
                },
            }
        },
    }
}

/// Chooses how an application request authenticates.
pub fn application_request_authentication(
    headers: &RequestHeaders,
    boundary: Option<&BrowserBoundary>,
    mutation: bool,
) -> (r: Result<ApplicationAuthentication, ProblemCode>)
    ensures
        match r {
            Ok(a) => application_outcome(
                headers.values("authorization"@),
                headers.values("cookie"@),
                headers.values("host"@),
                headers.values("origin"@),
                headers.values("x-csrf-token"@),
                match boundary {
                    Some(b) => Some(*b),
                    None => None,
                },
                mutation,
            ) == Ok::<(int, Seq<u8>, Seq<u8>), ProblemCode>(application_authentication_view(a)),
            Err(code) => application_outcome(
                headers.values("authorization"@),
                headers.values("cookie"@),
                headers.values("host"@),
                headers.values("origin"@),
                headers.values("x-csrf-token"@),
                match boundary {
                    Some(b) => Some(*b),
                    None => None,
                },
                mutation,
            ) == Err::<(int, Seq<u8>, Seq<u8>), ProblemCode>(code),
        },
{
    let session = match cookie_value(headers, SESSION_COOKIE) {
        Ok(v) => v,
        Err(()) => return Err(ProblemCode::AuthenticationFailed),
    };
    let bearer_present = headers.contains("authorization");
    if bearer_present && session.is_some() {
        return Err(ProblemCode::AuthenticationFailed);
    }
    if bearer_present {
        return match bearer_secret(headers) {
            Ok(b) => Ok(ApplicationAuthentication::Bearer(b)),
            Err(e) => Err(e),
        };
    }
    let boundary = match boundary {
        Some(b) => b,
        None => return Err(ProblemCode::AuthenticationFailed),
    };
    if mutation {
        match browser_session_mutation(headers, boundary) {
            Ok((s, c)) => Ok(ApplicationAuthentication::BrowserMutation(s, c)),
            Err(e) => Err(e),
        }
    } else {
        match browser_session_read(headers, boundary) {
            Ok(s) => Ok(ApplicationAuthentication::BrowserRead(s)),
            Err(e) => Err(e),
        }
    }
}

} // verus!
