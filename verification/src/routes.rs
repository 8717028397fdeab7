//! Path decisions of the HTTP surface: which unmatched paths the static
//! web application may answer, and the provider detail route.

use crate::text::{chars_of, has_prefix, push_str, string_from_chars, strip_prefix_chars};
use vstd::prelude::*;

verus! {

/// What answers a request that matched no route.
#[derive(Clone, Copy, Debug, PartialEq, Eq, Structural)]
pub enum StaticFallback {
    /// A plain 404: unmatched API paths never get the application shell.
    NotFound,
    /// The static directory, with `index.html` for client-side routes.
    ServeStatic,
}

/// The fallback for an unmatched path.
pub open spec fn fallback_for(path: Seq<char>) -> StaticFallback {
    if has_prefix(path, "/api/"@) {
        StaticFallback::NotFound
    } else {
        StaticFallback::ServeStatic
    }
}

/// Decides how an unmatched request is answered when a static directory
/// is configured.
pub fn static_fallback(path: &str) -> (r: StaticFallback)
    ensures
        r == fallback_for(path@),
{
    let p = chars_of(path);
    let api = chars_of("/api/");
    match strip_prefix_chars(&p, &api) {
        Some(_) => StaticFallback::NotFound,
        None => StaticFallback::ServeStatic,
    }
}

/// The provider identifier details route with its query.
pub open spec fn details_path_text(provider: Seq<char>, grain: Seq<char>, id: Seq<char>, offline: Seq<char>) -> Seq<
    char,
> {
    "/api/v1/search/providers/"@ + provider + "/"@ + grain + "/details?provider_record_id="@ + id
        + "&offline="@ + offline
}

/// The path of a provider identifier details request.
pub fn details_path(provider: &str, grain: &str, id: &str, offline: &str) -> (path: String)
    ensures
        path@ == details_path_text(provider@, grain@, id@, offline@),
{
    let mut out: Vec<char> = Vec::new();
    push_str(&mut out, "/api/v1/search/providers/");
    push_str(&mut out, provider);
    push_str(&mut out, "/");
    push_str(&mut out, grain);
    push_str(&mut out, "/details?provider_record_id=");
    push_str(&mut out, id);
    push_str(&mut out, "&offline=");
    push_str(&mut out, offline);
    assert(out@ =~= details_path_text(provider@, grain@, id@, offline@));
    string_from_chars(&out)
}

} // verus!
