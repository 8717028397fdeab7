use fasti_api::headers::{HeaderField, RequestHeaders};
use fasti_api::idmap::IdMap;
use fasti_api::integrations::{
    clamp_position, content_type_is_json, emby_request, grain_for_item_type, namespace_for,
    normalize_template_request, ticks_to_seconds, EmbyPayload, EventIdentity,
    IntegrationViolation, NormalizedObservation, ObservationIdentifier, TemplateRequest,
};
use fasti_api::multipart::{find_bytes, multipart_boundary, plex_payload_part};
use fasti_api::plex::{plex_request, PlexPayload};

fn s(v: &str) -> String {
    v.to_owned()
}

fn claim_tuples(identifiers: &[ObservationIdentifier]) -> Vec<(String, String, String)> {
    identifiers
        .iter()
        .map(|claim| (claim.namespace.clone(), claim.grain.clone(), claim.value.clone()))
        .collect()
}

fn lexeme(n: &NormalizedObservation) -> String {
    match &n.event {
        EventIdentity::Lexeme(text) => text.clone(),
        EventIdentity::Given(text) => text.clone(),
    }
}

fn emby(provider_ids: Vec<(&str, &str)>, utc: Option<&str>) -> EmbyPayload {
    EmbyPayload {
        event: Some(s("playback.stop")),
        notification_type: None,
        notification_type_camel: None,
        played_to_completion: Some(true),
        item_played: None,
        item_type: Some(s("Movie")),
        item_id: Some(s("emby-item-9")),
        item_provider_ids: Some(provider_ids.into_iter().map(|(k, v)| (s(k), s(v))).collect()),
        item_series_id: None,
        utc_timestamp: utc.map(s),
        timestamp: None,
        item_name: Some(s("Fixture movie")),
        item_run_time_ticks: Some(72000000000),
        session_position_ticks: Some(72000000000),
        playback_position_ticks: None,
    }
}

#[test]
fn emby_identity_and_fields_are_stable_across_field_reordering() {
    let now = "2026-08-27T13:00:00+00:00";
    let a = emby(vec![("Imdb", "tt9999999"), ("Tmdb", "9999")], Some("2026-08-27T12:00:00Z"));
    let b = emby(vec![("Tmdb", "9999"), ("Imdb", "tt9999999")], Some("2026-08-27T12:00:00Z"));
    let ra = emby_request(&a, b"raw-a", now).unwrap_or_else(|_| panic!("fixture a is valid"));
    let rb = emby_request(&b, b"raw-b", now).unwrap_or_else(|_| panic!("fixture b is valid"));
    assert_eq!(lexeme(&ra), lexeme(&rb));
    assert_eq!(ra.observed_at, rb.observed_at);
    assert_eq!(ra.title, rb.title);
    assert_eq!(ra.position_seconds, rb.position_seconds);
    assert_eq!(ra.duration_seconds, rb.duration_seconds);
    assert_eq!(ra.target_grain, rb.target_grain);
    assert_eq!(claim_tuples(&ra.identifiers), claim_tuples(&rb.identifiers));
}

#[test]
fn emby_identity_falls_back_to_raw_bytes_when_no_explicit_timestamp_is_present() {
    let mut payload = emby(vec![], None);
    payload.item_provider_ids = None;
    payload.item_run_time_ticks = None;
    payload.session_position_ticks = None;
    let raw = b"identical-raw-bytes";
    let first = emby_request(&payload, raw, "2026-01-01T00:00:00Z")
        .unwrap_or_else(|_| panic!("fixture is otherwise valid"));
    let second = emby_request(&payload, raw, "2026-01-01T00:00:05Z")
        .unwrap_or_else(|_| panic!("fixture is otherwise valid"));
    assert_eq!(lexeme(&first), lexeme(&second));
    assert_eq!(lexeme(&first), "identical-raw-bytes");
}

#[test]
fn emby_normalization_gives_exact_fields() {
    let p = emby(vec![("Imdb", "tt9999999"), ("Tmdb", "9999")], Some("2026-08-27T12:00:00Z"));
    let r = emby_request(&p, b"raw", "now").unwrap_or_else(|_| panic!("valid"));
    assert_eq!(lexeme(&r), "emby:emby-item-9:playback.stop:2026-08-27T12:00:00Z");
    assert_eq!(r.source, "emby");
    assert_eq!(r.observed_at, "2026-08-27T12:00:00Z");
    assert_eq!(r.target_grain, "film");
    assert_eq!(r.duration_seconds, Some(7200));
    assert_eq!(r.position_seconds, Some(7200));
    assert_eq!(
        claim_tuples(&r.identifiers),
        vec![
            (s("emby.film"), s("film"), s("emby-item-9")),
            (s("imdb.title"), s("film"), s("tt9999999")),
            (s("tmdb.movie"), s("film"), s("9999")),
        ]
    );
}

#[test]
fn emby_refusals_name_their_reason() {
    let mut p = emby(vec![], Some("t"));
    p.played_to_completion = Some(false);
    assert!(matches!(emby_request(&p, b"", "n"), Err(IntegrationViolation::EmbyNotCompleted)));
    let mut p = emby(vec![], Some("t"));
    p.event = Some(s("playback.start"));
    assert!(matches!(emby_request(&p, b"", "n"), Err(IntegrationViolation::EmbyUnsupportedEvent)));
    let mut p = emby(vec![], Some("t"));
    p.item_type = Some(s("Book"));
    assert!(matches!(emby_request(&p, b"", "n"), Err(IntegrationViolation::EmbyUnsupportedItemType)));
    let p = emby(vec![("bad key!", "1")], Some("t"));
    assert!(matches!(
        emby_request(&p, b"", "n"),
        Err(IntegrationViolation::ProviderNamespaceUnsafe)
    ));
}

fn plex(server: &str) -> PlexPayload {
    PlexPayload {
        event: Some(s("media.scrobble")),
        media_type: Some(s("movie")),
        rating_key: Some(s("200")),
        grandparent_rating_key: None,
        guids: Some(vec![Some(s("imdb://tt2222333"))]),
        duration_ms: Some(7200000),
        view_offset_ms: Some(7200000),
        last_viewed_at: Some(1787832000),
        server_uuid: Some(s(server)),
        title: Some(s("Fixture Plex movie")),
    }
}

#[test]
fn plex_identity_and_fields_are_stable_across_field_reordering() {
    let a = plex("plex-server");
    let b = plex("plex-server");
    let ra = plex_request(&a, b"raw-a", "now").unwrap_or_else(|_| panic!("fixture a is valid"));
    let rb = plex_request(&b, b"raw-b", "now").unwrap_or_else(|_| panic!("fixture b is valid"));
    assert_eq!(lexeme(&ra), lexeme(&rb));
    assert_eq!(ra.occurred_at, rb.occurred_at);
    assert_eq!(ra.title, rb.title);
    assert_eq!(ra.position_seconds, rb.position_seconds);
    assert_eq!(ra.duration_seconds, rb.duration_seconds);
    assert_eq!(ra.target_grain, rb.target_grain);
    assert_eq!(claim_tuples(&ra.identifiers), claim_tuples(&rb.identifiers));
}

#[test]
fn plex_identity_distinguishes_the_same_rating_key_on_different_servers() {
    let mut a = plex("server-a");
    let mut b = plex("server-b");
    a.guids = None;
    b.guids = None;
    let ra = plex_request(&a, b"raw", "now").unwrap_or_else(|_| panic!("fixture a is valid"));
    let rb = plex_request(&b, b"raw", "now").unwrap_or_else(|_| panic!("fixture b is valid"));
    assert_ne!(lexeme(&ra), lexeme(&rb));
}

#[test]
fn plex_normalization_gives_exact_fields() {
    let r = plex_request(&plex("srv"), b"raw", "2026-08-27T13:00:00+00:00").unwrap_or_else(|_| panic!("valid"));
    assert_eq!(lexeme(&r), "plex:srv:200:1787832000");
    assert_eq!(r.occurred_at.as_deref(), Some("2026-08-27T12:00:00+00:00"));
    assert_eq!(r.observed_at, "2026-08-27T13:00:00+00:00");
    assert_eq!(r.duration_seconds, Some(7200));
    assert_eq!(r.position_seconds, Some(7200));
    assert_eq!(
        claim_tuples(&r.identifiers),
        vec![(s("plex.film"), s("film"), s("200")), (s("imdb.title"), s("film"), s("tt2222333"))]
    );
    let mut negative = plex("");
    negative.last_viewed_at = Some(-5);
    let r = plex_request(&negative, b"raw", "n").unwrap_or_else(|_| panic!("valid"));
    assert_eq!(lexeme(&r), "plex::200:-5");
    let mut no_key = plex("srv");
    no_key.rating_key = None;
    let r = plex_request(&no_key, b"raw \xff bytes", "n").unwrap_or_else(|_| panic!("valid"));
    assert_eq!(lexeme(&r), "raw \u{fffd} bytes");
}

#[test]
fn plex_refuses_other_events_and_media() {
    let mut p = plex("s");
    p.event = Some(s("media.play"));
    assert!(matches!(plex_request(&p, b"", "n"), Err(IntegrationViolation::PlexNotScrobble)));
    let mut p = plex("s");
    p.media_type = Some(s("photo"));
    assert!(matches!(
        plex_request(&p, b"", "n"),
        Err(IntegrationViolation::PlexUnsupportedMediaType)
    ));
}

#[test]
fn plex_guid_list_stops_at_sixteen_identifiers() {
    let mut p = plex("s");
    p.media_type = Some(s("episode"));
    p.grandparent_rating_key = Some(s("series-1"));
    p.guids = Some((0..20).map(|i| Some(format!("p{i}://v{i}"))).collect());
    let r = plex_request(&p, b"", "n").unwrap_or_else(|_| panic!("valid"));
    assert_eq!(r.identifiers.len(), 14);
    assert_eq!(r.identifiers[1].namespace, "plex.series");
    assert_eq!(r.identifiers[2].namespace, "p0.episode");
}

#[test]
fn grains_and_namespaces_follow_the_registry() {
    assert_eq!(grain_for_item_type(" Movie "), Some("film"));
    assert_eq!(grain_for_item_type("song"), Some("recording"));
    assert_eq!(grain_for_item_type("show"), Some("series"));
    assert_eq!(grain_for_item_type("book"), None);
    assert_eq!(namespace_for("IMDB", "series"), Some(s("imdb.title")));
    assert_eq!(namespace_for("tmdb", "film"), Some(s("tmdb.movie")));
    assert_eq!(namespace_for("anidb", "episode"), Some(s("anidb.episode")));
    assert_eq!(namespace_for("bad key", "film"), None);
    assert_eq!(namespace_for("", "film"), None);
}

#[test]
fn ticks_and_positions_are_clamped() {
    assert_eq!(ticks_to_seconds(Some(72000000000)), Some(7200));
    assert_eq!(ticks_to_seconds(None), None);
    assert_eq!(clamp_position(Some(10), Some(5)), Some(5));
    assert_eq!(clamp_position(Some(3), Some(5)), Some(3));
    assert_eq!(clamp_position(Some(3), None), Some(3));
    assert_eq!(clamp_position(None, Some(5)), Some(5));
}

#[test]
fn multipart_boundary_is_the_first_boundary_parameter() {
    assert_eq!(
        multipart_boundary("multipart/form-data; charset=utf-8; BOUNDARY=\"abc\""),
        Some(s("abc"))
    );
    assert_eq!(multipart_boundary("multipart/form-data;boundary= x "), Some(s("x")));
    assert_eq!(multipart_boundary("boundary=x"), None);
    assert_eq!(multipart_boundary("multipart/form-data; name=x"), None);
}

#[test]
fn find_bytes_finds_the_first_occurrence_from_start() {
    assert_eq!(find_bytes(b"abcabc", b"bc", 0), Some(1));
    assert_eq!(find_bytes(b"abcabc", b"bc", 2), Some(4));
    assert_eq!(find_bytes(b"abcabc", b"", 0), None);
    assert_eq!(find_bytes(b"abc", b"c", 4), None);
    assert_eq!(find_bytes(b"abc", b"abcd", 0), None);
}

#[test]
fn plex_payload_part_is_the_part_named_payload() {
    let body = b"--XYZ\r\nContent-Disposition: form-data; name=\"thumb\"\r\n\r\nIMG\r\n--XYZ\r\nContent-Disposition: form-data; name=\"payload\"\r\n\r\n{\"event\":1}\r\n\r\n--XYZ--\r\n";
    assert_eq!(plex_payload_part(body, "XYZ"), Some(&b"{\"event\":1}"[..]));
    assert_eq!(plex_payload_part(body, ""), None);
    assert_eq!(plex_payload_part(body, &"x".repeat(201)), None);
    assert_eq!(plex_payload_part(b"--XYZ\r\nname=other\r\n\r\nbody", "XYZ"), None);
    assert_eq!(plex_payload_part(b"--B\r\nname=payload\r\n\r\nv", "B"), Some(&b"v"[..]));
}

#[test]
fn json_content_type_ignores_parameters_and_case() {
    let h = RequestHeaders {
        fields: vec![HeaderField {
            name: s("content-type"),
            value: Some(s(" Application/JSON ; charset=utf-8")),
        }],
    };
    assert!(content_type_is_json(&h));
    let h = RequestHeaders {
        fields: vec![HeaderField { name: s("content-type"), value: Some(s("text/plain")) }],
    };
    assert!(!content_type_is_json(&h));
    assert!(!content_type_is_json(&RequestHeaders { fields: vec![] }));
}

#[test]
fn template_requests_normalize_with_bounded_identifiers() {
    let mut ids = IdMap::new();
    ids.insert(s("IMDB"), s("tt1"));
    let request = TemplateRequest {
        completed: true,
        item_type: s("episode"),
        provider_ids: ids,
        series_provider_ids: IdMap::new(),
        series_title: Some(s("Show")),
        title: Some(s("Pilot")),
        source_event_id: s("evt-1"),
        observed_at: s("2026-01-01T00:00:00Z"),
        occurred_at: None,
        position_seconds: Some(10),
        duration_seconds: Some(5),
    };
    let n = normalize_template_request("jellyfin", &request).unwrap_or_else(|_| panic!("valid"));
    assert_eq!(n.target_grain, "episode");
    assert_eq!(n.position_seconds, Some(10));
    assert_eq!(n.title.as_deref(), Some("Show \u{2014} Pilot"));
    assert_eq!(claim_tuples(&n.identifiers), vec![(s("imdb.title"), s("episode"), s("tt1"))]);
    let incomplete = TemplateRequest { completed: false, ..request };
    assert!(matches!(
        normalize_template_request("jellyfin", &incomplete),
        Err(IntegrationViolation::IncompleteOccurrence)
    ));
}
