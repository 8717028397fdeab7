use fasti_api::headers::{HeaderField, RequestHeaders};
use fasti_api::problem::ProblemCode;
use fasti_api::webhooks::{
    emby_webhook_admission, plex_webhook_payload, template_webhook_admission, WebhookRejection,
};

fn h(fields: &[(&str, &str)]) -> RequestHeaders {
    RequestHeaders {
        fields: fields
            .iter()
            .map(|(n, v)| HeaderField { name: (*n).to_owned(), value: Some((*v).to_owned()) })
            .collect(),
    }
}

fn bearer() -> String {
    format!("Bearer {}", "2c".repeat(32))
}

#[test]
fn json_webhooks_check_credential_media_type_and_bound_in_order() {
    let ok = h(&[("authorization", &bearer()), ("content-type", "application/json")]);
    assert_eq!(template_webhook_admission(&ok, 65536), Ok([0x2c; 32]));
    assert_eq!(template_webhook_admission(&ok, 65537), Err(WebhookRejection::PayloadTooLarge));
    assert_eq!(emby_webhook_admission(&ok, 65537), Err(WebhookRejection::PayloadTooLarge));
    let text = h(&[("authorization", &bearer()), ("content-type", "text/plain")]);
    assert_eq!(template_webhook_admission(&text, 1), Err(WebhookRejection::UnsupportedMediaType));
    let anonymous = h(&[("content-type", "application/json")]);
    assert_eq!(
        template_webhook_admission(&anonymous, 1_000_000),
        Err(WebhookRejection::Credential(ProblemCode::AuthenticationFailed))
    );
}

#[test]
fn plex_webhook_yields_the_payload_part() {
    let body = b"--b1\r\nContent-Disposition: form-data; name=\"payload\"\r\n\r\n{}\r\n--b1--";
    let ok = h(&[("authorization", &bearer()), ("content-type", "Multipart/Form-Data; boundary=b1")]);
    assert_eq!(plex_webhook_payload(&ok, body), Ok(([0x2c; 32], &b"{}"[..])));
    let no_boundary = h(&[("authorization", &bearer()), ("content-type", "multipart/form-data")]);
    assert_eq!(
        plex_webhook_payload(&no_boundary, body),
        Err(WebhookRejection::MultipartBoundaryInvalid)
    );
    let json = h(&[("authorization", &bearer()), ("content-type", "application/json")]);
    assert_eq!(plex_webhook_payload(&json, body), Err(WebhookRejection::UnsupportedMediaType));
    let other = h(&[("authorization", &bearer()), ("content-type", "multipart/form-data; boundary=zz")]);
    assert_eq!(plex_webhook_payload(&other, body), Err(WebhookRejection::PayloadPartMissing));
    let big = vec![b'x'; 524289];
    assert_eq!(plex_webhook_payload(&ok, &big), Err(WebhookRejection::PayloadTooLarge));
    let mut large_part = b"--b1\r\nname=payload\r\n\r\n".to_vec();
    large_part.extend(std::iter::repeat(b'x').take(65537));
    assert_eq!(plex_webhook_payload(&ok, &large_part), Err(WebhookRejection::PayloadOutOfBounds));
}
