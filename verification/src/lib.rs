//! Verified request parsing, response shaping and state rules of the Fasti
//! local HTTP API.

pub mod access;
pub mod activity;
pub mod browser_auth;
pub mod conformance;
pub mod credential_changes;
pub mod digest;
pub mod headers;
pub mod identity;
pub mod idmap;
pub mod integration_status;
pub mod integrations;
pub mod invocation;
pub mod metadata;
pub mod multipart;
pub mod observation;
pub mod plex;
pub mod problem;
pub mod profile_state;
pub mod providers;
pub mod routes;
pub mod secrets;
pub mod text;
pub mod webhooks;

use vstd::prelude::*;

verus! {

/// The only origin a browser may use on the direct listener.
pub const FASTI_ACCESS_ORIGIN: &'static str = "http://127.0.0.1:8420";

/// The only `Host` the direct listener answers for browsers.
pub const FASTI_ACCESS_HOST: &'static str = "127.0.0.1:8420";

/// Path of the TrailBase sign-in callback.
pub const FASTI_ACCESS_CALLBACK_PATH: &'static str = "/api/access/v1/trailbase/callback";

/// The fixed callback URL registered with TrailBase.
pub const FASTI_ACCESS_CALLBACK_URL: &'static str =
    "http://127.0.0.1:8420/api/access/v1/trailbase/callback";

/// Name of the one-use, callback-scoped browser binding cookie.
pub const FASTI_ACCESS_BINDING_COOKIE: &'static str = "__Secure-fasti_auth_binding";

/// Path of the sign-in continuation.
pub const FASTI_ACCESS_CONTINUATION_PATH: &'static str = "/api/access/v1/trailbase/continuation";

/// Name of the one-use, continuation-scoped binding cookie.
pub const FASTI_ACCESS_CONTINUATION_COOKIE: &'static str = "__Secure-fasti_auth_continuation";

} // verus!
