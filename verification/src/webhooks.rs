//! Admission of the integration webhooks before their bodies are read as
//! JSON: the bearer credential, the media type, the body bounds, and for
//! Plex the multipart payload part.

use crate::headers::{bearer_outcome, bearer_secret, first_text, RequestHeaders};
use crate::integrations::{content_type_is_json, is_json_content_type};
use crate::multipart::{boundary_of, multipart_boundary, plex_payload_of, plex_payload_part};
use crate::problem::ProblemCode;
use crate::text::{ascii_lower_seq, chars_of, has_prefix, lower_chars, strip_prefix_chars};
use vstd::prelude::*;
use vstd::utf8::encode_utf8;

verus! {

/// Largest JSON webhook body, and largest Plex payload part, in bytes.
pub const MAX_PROVIDER_JSON_BYTES: usize = 65536;

/// Largest Plex multipart body, in bytes.
pub const MAX_PLEX_MULTIPART_BYTES: usize = 524288;

/// Why a webhook is refused before its body is interpreted.
#[derive(Clone, Copy, Debug, PartialEq, Eq, Structural)]
pub enum WebhookRejection {
    /// The bearer credential is missing, malformed or beside a session.
    Credential(ProblemCode),
    /// The body is not of the media type the adapter reads.
    UnsupportedMediaType,
    /// The webhook body exceeds its bound (a payload-too-large problem):
    /// 65536 bytes for a JSON body, 524288 bytes for a Plex multipart body.
    PayloadTooLarge,
    /// The Plex multipart boundary is missing or invalid (`/`).
    MultipartBoundaryInvalid,
    /// No Plex part is named `payload` (`/payload`).
    PayloadPartMissing,
    /// The Plex payload part exceeds 65536 bytes (`/payload`).
    PayloadOutOfBounds,
}

/// The credential of a JSON webhook, or why it is refused: the bearer
/// credential first, then the media type, then the body bound, which is
/// reported as `too_large`.
pub open spec fn json_webhook_outcome(
    headers: RequestHeaders,
    body_len: nat,
    too_large: WebhookRejection,
) -> Result<Seq<u8>, WebhookRejection> {
    match bearer_outcome(headers.values("authorization"@), headers.values("cookie"@)) {
        Err(code) => Err(WebhookRejection::Credential(code)),
        Ok(secret) => if !is_json_content_type(first_text(headers.values("content-type"@))) {
            Err(WebhookRejection::UnsupportedMediaType)
        } else if body_len > MAX_PROVIDER_JSON_BYTES {
            Err(too_large)
        } else {
            Ok(secret)
        },
    }
}

fn json_webhook(headers: &RequestHeaders, body_len: usize, too_large: WebhookRejection) -> (r:
    Result<[u8; 32], WebhookRejection>)
    ensures
        match r {
            Ok(s) => json_webhook_outcome(*headers, body_len as nat, too_large) == Ok::<
                Seq<u8>,
                WebhookRejection,
            >(s@),
            Err(e) => json_webhook_outcome(*headers, body_len as nat, too_large) == Err::<
                Seq<u8>,
                WebhookRejection,
            >(e),
        },
{
    let secret = match bearer_secret(headers) {
        Ok(s) => s,
        Err(code) => return Err(WebhookRejection::Credential(code)),
    };
    if !content_type_is_json(headers) {
        return Err(WebhookRejection::UnsupportedMediaType);
    }
    if body_len > MAX_PROVIDER_JSON_BYTES {
        return Err(too_large);
    }
    Ok(secret)
}

/// Admits a Tautulli, Jellyfin or Nuvio webhook.
pub fn template_webhook_admission(headers: &RequestHeaders, body_len: usize) -> (r: Result<
    [u8; 32],
    WebhookRejection,
>)
    ensures
        match r {
            Ok(s) => json_webhook_outcome(
                *headers,
                body_len as nat,
                WebhookRejection::PayloadTooLarge,
            ) == Ok::<Seq<u8>, WebhookRejection>(s@),
            Err(e) => json_webhook_outcome(
                *headers,
                body_len as nat,
                WebhookRejection::PayloadTooLarge,
            ) == Err::<Seq<u8>, WebhookRejection>(e),
        },
{
    json_webhook(headers, body_len, WebhookRejection::PayloadTooLarge)
}

/// Admits an Emby webhook.
pub fn emby_webhook_admission(headers: &RequestHeaders, body_len: usize) -> (r: Result<
    [u8; 32],
    WebhookRejection,
>)
    ensures
        match r {
            Ok(s) => json_webhook_outcome(
                *headers,
                body_len as nat,
                WebhookRejection::PayloadTooLarge,
            ) == Ok::<Seq<u8>, WebhookRejection>(s@),
            Err(e) => json_webhook_outcome(
                *headers,
                body_len as nat,
                WebhookRejection::PayloadTooLarge,
            ) == Err::<Seq<u8>, WebhookRejection>(e),
        },
{
    json_webhook(headers, body_len, WebhookRejection::PayloadTooLarge)
}

/// The credential and payload part of a Plex webhook, or why it is
/// refused: the bearer credential, the body bound, a `multipart/form-data`
/// content type in any ASCII case, its boundary, the part named
/// `payload`, and that part's bound, in this order.
pub open spec fn plex_webhook_outcome(headers: RequestHeaders, body: Seq<u8>) -> Result<
    (Seq<u8>, Seq<u8>),
    WebhookRejection,
> {
    match bearer_outcome(headers.values("authorization"@), headers.values("cookie"@)) {
        Err(code) => Err(WebhookRejection::Credential(code)),
        Ok(secret) => if body.len() > MAX_PLEX_MULTIPART_BYTES {
            Err(WebhookRejection::PayloadTooLarge)
        } else {
            match first_text(headers.values("content-type"@)) {
                None => Err(WebhookRejection::UnsupportedMediaType),
                Some(content_type) => if !has_prefix(
                    ascii_lower_seq(content_type),
                    "multipart/form-data"@,
                ) {
                    Err(WebhookRejection::UnsupportedMediaType)
                } else {
                    match boundary_of(content_type) {
                        None => Err(WebhookRejection::MultipartBoundaryInvalid),
                        Some(boundary) => match plex_payload_of(body, encode_utf8(boundary)) {
                            None => Err(WebhookRejection::PayloadPartMissing),
                            Some(payload) => if payload.len() > MAX_PROVIDER_JSON_BYTES {
                                Err(WebhookRejection::PayloadOutOfBounds)
                            } else {
                                Ok((secret, payload))
                            },
                        },
                    }
                },
            }
        },
    }
}

/// Admits a Plex webhook and finds its JSON payload part.
pub fn plex_webhook_payload<'a>(headers: &RequestHeaders, body: &'a [u8]) -> (r: Result<
    ([u8; 32], &'a [u8]),
    WebhookRejection,
>)
    ensures
        match r {
            Ok((s, p)) => plex_webhook_outcome(*headers, body@) == Ok::<
                (Seq<u8>, Seq<u8>),
                WebhookRejection,
            >((s@, p@)),
            Err(e) => plex_webhook_outcome(*headers, body@) == Err::<
                (Seq<u8>, Seq<u8>),
                WebhookRejection,
            >(e),
        },
{
    let secret = match bearer_secret(headers) {
        Ok(s) => s,
        Err(code) => return Err(WebhookRejection::Credential(code)),
    };
    if body.len() > MAX_PLEX_MULTIPART_BYTES {
        return Err(WebhookRejection::PayloadTooLarge);
    }
    let content_type = match headers.first("content-type") {
        Some(v) => v,
        None => return Err(WebhookRejection::UnsupportedMediaType),
    };
    let lowered = lower_chars(&content_type);
    let media = chars_of("multipart/form-data");
    if strip_prefix_chars(&lowered, &media).is_none() {
        return Err(WebhookRejection::UnsupportedMediaType);
    }
    let text = crate::text::string_from_chars(&content_type);
    let boundary = match multipart_boundary(text.as_str()) {
        Some(b) => b,
        None => return Err(WebhookRejection::MultipartBoundaryInvalid),
    };
    let payload = match plex_payload_part(body, boundary.as_str()) {
        Some(p) => p,
        None => return Err(WebhookRejection::PayloadPartMissing),
    };
    if payload.len() > MAX_PROVIDER_JSON_BYTES {
        return Err(WebhookRejection::PayloadOutOfBounds);
    }
    Ok((secret, payload))
}

} // verus!
