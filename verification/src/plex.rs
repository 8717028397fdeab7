//! Normalization of a Plex `media.scrobble` webhook into a completed
//! occurrence, with an identity keyed on the item, the server and the view
//! time rather than on the delivered bytes.

use crate::integrations::{
    emby_outcome, EmbyPayload, lemma_music_items_are_recordings, names_music,
    clamp_position, clamp_spec, clone_opt, div_opt, grain_for_item_type, grain_of,
    identifiers_view, lossy_text, namespace_chars, namespace_of, opt_string_view, opt_view,
    or_empty, positive, push_identifier, utf8_lossy, EventIdentity, IntegrationViolation,
    NormalizedObservation, ObservationIdentifier, ObservationView,
};
use crate::text::{
    chars_of, push_chars, push_signed_decimal, push_str, signed_decimal, split_once_text,
    split_once_text_chars, string_from_chars,
};
use chrono::TimeZone;
use vstd::prelude::*;

verus! {

/// The fields of a Plex webhook payload that the adapter reads, each
/// present when the JSON holds a value of the expected type at its pointer.
pub struct PlexPayload {
    /// `/event`
    pub event: Option<String>,
    /// `/Metadata/type`
    pub media_type: Option<String>,
    /// `/Metadata/ratingKey`
    pub rating_key: Option<String>,
    /// `/Metadata/grandparentRatingKey`
    pub grandparent_rating_key: Option<String>,
    /// `/Metadata/Guid`: for each element, its `id` when that is a string;
    /// `None` when the member is not an array.
    pub guids: Option<Vec<Option<String>>>,
    /// `/Metadata/duration`, in milliseconds
    pub duration_ms: Option<u64>,
    /// `/Metadata/viewOffset`, in milliseconds
    pub view_offset_ms: Option<u64>,
    /// `/Metadata/lastViewedAt`, in seconds since the Unix epoch
    pub last_viewed_at: Option<i64>,
    /// `/Server/uuid`
    pub server_uuid: Option<String>,
    /// `/Metadata/title`
    pub title: Option<String>,
}

/// The RFC 3339 text of a Unix time in UTC, when chrono can represent it.
pub uninterp spec fn utc_rfc3339(seconds: i64) -> Option<Seq<char>>;

/// `Utc.timestamp_opt(seconds, 0).single()` rendered by
/// `DateTime::to_rfc3339`. What the text is, and for which times chrono
/// gives none, is left to chrono: the contract names the result only.
#[verifier::external_body]
fn utc_rfc3339_text(seconds: i64) -> (r: Option<String>)
    ensures
        opt_string_view(r) == utc_rfc3339(seconds),
{
    match chrono::Utc.timestamp_opt(seconds, 0).single() {
        Some(at) => Some(at.to_rfc3339()),
        None => None,
    }
}

pub open spec fn guid_views(guids: Seq<Option<String>>) -> Seq<Option<Seq<char>>> {
    Seq::new(guids.len(), |i: int| opt_string_view(guids[i]))
}

/// At most the first `n` elements.
pub open spec fn first_n<T>(s: Seq<T>, n: int) -> Seq<T> {
    if s.len() > n {
        s.subrange(0, n)
    } else {
        s
    }
}

/// The identifier a Plex GUID such as `imdb://tt1` gives, when its scheme
/// names a safe provider.
pub open spec fn guid_identifier(id: Option<Seq<char>>, grain: Seq<char>) -> Option<
    (Seq<char>, Seq<char>, Seq<char>),
> {
    match id {
        None => None,
        Some(id) => match split_once_text(id, "://"@) {
            None => None,
            Some((provider, value)) => match namespace_of(provider, grain) {
                None => None,
                Some(namespace) => Some((namespace, grain, value)),
            },
        },
    }
}

/// Appends the identifiers of `guids` in order, stopping once the list
/// holds 16.
pub open spec fn guid_ids(
    out: Seq<(Seq<char>, Seq<char>, Seq<char>)>,
    guids: Seq<Option<Seq<char>>>,
    grain: Seq<char>,
) -> Seq<(Seq<char>, Seq<char>, Seq<char>)>
    decreases guids.len(),
{
    if guids.len() == 0 {
        out
    } else {
        match guid_identifier(guids[0], grain) {
            None => guid_ids(out, guids.drop_first(), grain),
            Some(identifier) => {
                let next = out.push(identifier);
                if next.len() >= 16 {
                    next
                } else {
                    guid_ids(next, guids.drop_first(), grain)
                }
            },
        }
    }
}

/// The identity text of a Plex scrobble: server, item and view time.
pub open spec fn plex_lexeme_text(server: Seq<char>, rating_key: Seq<char>, viewed_at: int) -> Seq<
    char,
> {
    "plex:"@ + server + ":"@ + rating_key + ":"@ + signed_decimal(viewed_at)
}

/// The identity text of a Plex event: keyed on stable fields when the item
/// has a rating key, otherwise the raw payload.
pub open spec fn plex_lexeme(p: PlexPayload, raw: Seq<u8>) -> Seq<char> {
    match p.rating_key {
        Some(key) => plex_lexeme_text(
            or_empty(opt_string_view(p.server_uuid)),
            key@,
            match p.last_viewed_at {
                Some(t) => t as int,
                None => 0,
            },
        ),
        None => utf8_lossy(raw),
    }
}

/// What a Plex webhook normalizes to.
pub open spec fn plex_outcome(p: PlexPayload, raw: Seq<u8>, now: Seq<char>) -> Result<
    ObservationView,
    IntegrationViolation,
> {
    if or_empty(opt_string_view(p.event)) != "media.scrobble"@ {
        Err(IntegrationViolation::PlexNotScrobble)
    } else {
        let media_type = match p.media_type {
            Some(t) => t@,
            None => "custom"@,
        };
        match grain_of(media_type) {
            None => Err(IntegrationViolation::PlexUnsupportedMediaType),
            Some(grain) => {
                let ids0 = match p.rating_key {
                    Some(key) => seq![("plex."@ + grain, grain, key@)],
                    None => seq![],
                };
                let ids1 = if grain == "episode"@ && p.grandparent_rating_key.is_some() {
                    ids0.push(("plex.series"@, "series"@, p.grandparent_rating_key.unwrap()@))
                } else {
                    ids0
                };
                let ids2 = match p.guids {
                    Some(g) => guid_ids(ids1, first_n(guid_views(g@), 12), grain),
                    None => ids1,
                };
                let duration = positive(div_opt(p.duration_ms, 1000));
                Ok(
                    ObservationView {
                        source: "plex"@,
                        event_given: false,
                        event: plex_lexeme(p, raw),
                        observed_at: now,
                        occurred_at: match p.last_viewed_at {
                            Some(t) => utc_rfc3339(t),
                            None => None,
                        },
                        target_grain: grain,
                        identifiers: ids2,
                        title: opt_string_view(p.title),
                        position_seconds: clamp_spec(div_opt(p.view_offset_ms, 1000), duration),
                        duration_seconds: duration,
                    },
                )
            },
        }
    }
}

fn guid_identifier_of(id: &Option<String>, grain: &[char]) -> (r: Option<(Vec<char>, Vec<char>)>)
    ensures
        match r {
            Some((namespace, value)) => guid_identifier(opt_string_view(*id), grain@) == Some(
                (namespace@, grain@, value@),
            ),
            None => guid_identifier(opt_string_view(*id), grain@).is_none(),
        },
{
    let id = match id {
        Some(id) => chars_of(id.as_str()),
        None => return None,
    };
    let scheme = chars_of("://");
    let (provider, value) = match split_once_text_chars(&id, &scheme) {
        Some(parts) => parts,
        None => return None,
    };
    match namespace_chars(&provider, grain) {
        Some(namespace) => Some((namespace, value)),
        None => None,
    }
}

fn push_guid_ids(out: &mut Vec<ObservationIdentifier>, guids: &Vec<Option<String>>, grain: &[char])
    ensures
        identifiers_view(final(out)@) == guid_ids(
            identifiers_view(old(out)@),
            first_n(guid_views(guids@), 12),
            grain@,
        ),
{
    let ghost all = first_n(guid_views(guids@), 12);
    let limit: usize = if guids.len() > 12 {
        12
    } else {
        guids.len()
    };
    assert(all.len() == limit);
    assert(all.subrange(0, all.len() as int) =~= all);
    let mut i: usize = 0;
    while i < limit
        invariant
            i <= limit,
            limit == all.len(),
            limit <= guids@.len(),
            all == first_n(guid_views(guids@), 12),
            guid_ids(identifiers_view(old(out)@), all, grain@) == guid_ids(
                identifiers_view(out@),
                all.subrange(i as int, all.len() as int),
                grain@,
            ),
        decreases limit - i,
    {
        let ghost rest = all.subrange(i as int, all.len() as int);
        assert(rest[0] == opt_string_view(guids@[i as int]));
        assert(rest.drop_first() =~= all.subrange(i + 1, all.len() as int));
        match guid_identifier_of(&guids[i], grain) {
            Some((namespace, value)) => {
                let v = string_from_chars(&value);
                push_identifier(out, &namespace, grain, &v);
                if out.len() >= 16 {
                    return;
                }
            },
            None => {},
        }
        i = i + 1;
    }
}

/// Normalizes a Plex scrobble. `raw` is the payload part, the identity
/// only when the item has no rating key; `now` is the ingestion time.
pub fn plex_request(payload: &PlexPayload, raw: &[u8], now: &str) -> (r: Result<
    NormalizedObservation,
    IntegrationViolation,
>)
    ensures
        match r {
            Ok(n) => plex_outcome(*payload, raw@, now@) == Ok::<
                ObservationView,
                IntegrationViolation,
            >(n@),
            Err(e) => plex_outcome(*payload, raw@, now@) == Err::<
                ObservationView,
                IntegrationViolation,
            >(e),
        },
{
    let event = match &payload.event {
        Some(e) => chars_of(e.as_str()),
        None => Vec::new(),
    };
    let scrobble = chars_of("media.scrobble");
    if !crate::text::chars_eq(&event, &scrobble) {
        return Err(IntegrationViolation::PlexNotScrobble);
    }
    let grain = match &payload.media_type {
        Some(t) => grain_for_item_type(t.as_str()),
        None => grain_for_item_type("custom"),
    };
    let grain = match grain {
        Some(g) => g,
        None => return Err(IntegrationViolation::PlexUnsupportedMediaType),
    };
    let gc = chars_of(grain);
    let mut identifiers: Vec<ObservationIdentifier> = Vec::new();
    assert(identifiers_view(identifiers@) =~= seq![]);
    match &payload.rating_key {
        Some(key) => {
            let mut ns: Vec<char> = Vec::new();
            push_str(&mut ns, "plex.");
            push_chars(&mut ns, &gc);
            push_identifier(&mut identifiers, &ns, &gc, key);
        },
        None => {},
    }
    let episode = chars_of("episode");
    if crate::text::chars_eq(&gc, &episode) {
        match &payload.grandparent_rating_key {
            Some(series_key) => {
                let ns = chars_of("plex.series");
                let sg = chars_of("series");
                push_identifier(&mut identifiers, &ns, &sg, series_key);
            },
            None => {},
        }
    }
    match &payload.guids {
        Some(guids) => push_guid_ids(&mut identifiers, guids, &gc),
        None => {},
    }
    let occurred_at = match payload.last_viewed_at {
        Some(t) => utc_rfc3339_text(t),
        None => None,
    };
    let lexeme = match &payload.rating_key {
        Some(key) => {
            let mut l: Vec<char> = Vec::new();
            push_str(&mut l, "plex:");
            match &payload.server_uuid {
                Some(server) => push_str(&mut l, server.as_str()),
                None => {},
            }
            push_str(&mut l, ":");
            push_str(&mut l, key.as_str());
            push_str(&mut l, ":");
            let viewed_at: i64 = match payload.last_viewed_at {
                Some(t) => t,
                None => 0,
            };
            push_signed_decimal(&mut l, viewed_at);
            string_from_chars(&l)
        },
        None => lossy_text(raw),
    };
    let duration = match payload.duration_ms {
        Some(ms) => if ms / 1000 > 0 {
            Some(ms / 1000)
        } else {
            None
        },
        None => None,
    };
    let offset = match payload.view_offset_ms {
        Some(ms) => Some(ms / 1000),
        None => None,
    };
    let position = clamp_position(offset, duration);
    let result = NormalizedObservation {
        source: string_from_chars(&chars_of("plex")),
        event: EventIdentity::Lexeme(lexeme),
        observed_at: string_from_chars(&chars_of(now)),
        occurred_at,
        target_grain: string_from_chars(&gc),
        identifiers,
        title: clone_opt(&payload.title),
        position_seconds: position,
        duration_seconds: duration,
    };
    proof {
        assert(result@.event =~= plex_lexeme(*payload, raw@));
    }
    Ok(result)
}

proof fn lemma_lexeme_text_distinct(u1: Seq<char>, u2: Seq<char>, key: Seq<char>, at: int)
    requires
        u1 != u2,
    ensures
        plex_lexeme_text(u1, key, at) != plex_lexeme_text(u2, key, at),
{
    reveal_strlit("plex:");
    let tail = ":"@ + key + ":"@ + signed_decimal(at);
    let a = plex_lexeme_text(u1, key, at);
    let b = plex_lexeme_text(u2, key, at);
    assert(a =~= "plex:"@ + u1 + tail);
    assert(b =~= "plex:"@ + u2 + tail);
    if a == b {
        if u1.len() == u2.len() {
            assert(a.subrange(5, 5 + u1.len() as int) =~= u1);
            assert(b.subrange(5, 5 + u2.len() as int) =~= u2);
        } else {
            assert(a.len() != b.len());
        }
    }
}

/// The same Plex item scrobbled at the same time on two servers with
/// different server identities gets two different event identities.
pub proof fn lemma_plex_identity_distinguishes_servers(
    p1: PlexPayload,
    p2: PlexPayload,
    raw1: Seq<u8>,
    raw2: Seq<u8>,
    now1: Seq<char>,
    now2: Seq<char>,
)
    requires
        p1.rating_key.is_some(),
        opt_string_view(p1.rating_key) == opt_string_view(p2.rating_key),
        p1.last_viewed_at == p2.last_viewed_at,
        or_empty(opt_string_view(p1.server_uuid)) != or_empty(opt_string_view(p2.server_uuid)),
        plex_outcome(p1, raw1, now1) is Ok,
        plex_outcome(p2, raw2, now2) is Ok,
    ensures
        plex_outcome(p1, raw1, now1)->Ok_0.event != plex_outcome(p2, raw2, now2)->Ok_0.event,
{
    let at: int = match p1.last_viewed_at {
        Some(t) => t as int,
        None => 0,
    };
    lemma_lexeme_text_distinct(
        or_empty(opt_string_view(p1.server_uuid)),
        or_empty(opt_string_view(p2.server_uuid)),
        p1.rating_key.unwrap()@,
        at,
    );
}


/// A Plex scrobble with a rating key is identified by its fields alone:
/// byte-level differences between two deliveries of the same event, and
/// the time they arrive, do not change its identity.
pub proof fn lemma_plex_identity_ignores_delivery_bytes(
    p: PlexPayload,
    raw1: Seq<u8>,
    raw2: Seq<u8>,
    now1: Seq<char>,
    now2: Seq<char>,
)
    requires
        p.rating_key.is_some(),
        plex_outcome(p, raw1, now1) is Ok,
    ensures
        plex_outcome(p, raw2, now2) is Ok,
        plex_outcome(p, raw1, now1)->Ok_0.event == plex_outcome(p, raw2, now2)->Ok_0.event,
{
}


/// What a media-server adapter hands on always passes the observation
/// bounds on time: a supplied duration is positive and a position never
/// runs past it.
pub open spec fn times_within_bounds(v: ObservationView) -> bool {
    &&& v.duration_seconds != Some(0u64)
    &&& (v.position_seconds.is_some() && v.duration_seconds.is_some()
        ==> v.position_seconds.unwrap() <= v.duration_seconds.unwrap())
}

/// Emby and Plex normalizations clamp playback positions to the duration
/// and drop zero durations, so their output never fails the observation
/// bounds on position or duration.
pub proof fn lemma_adapters_keep_positions_within_duration(
    e: EmbyPayload,
    p: PlexPayload,
    raw: Seq<u8>,
    now: Seq<char>,
)
    ensures
        emby_outcome(e, raw, now) is Ok ==> times_within_bounds(emby_outcome(e, raw, now)->Ok_0),
        plex_outcome(p, raw, now) is Ok ==> times_within_bounds(plex_outcome(p, raw, now)->Ok_0),
{
}

/// A Plex scrobble of a music item (a track, audio or a song, in any case)
/// is accepted, with the `recording` grain.
pub proof fn lemma_plex_music_scrobble_is_recording(p: PlexPayload, raw: Seq<u8>, now: Seq<char>)
    requires
        p.event is Some,
        p.event->Some_0@ == "media.scrobble"@,
        p.media_type is Some,
        names_music(p.media_type->Some_0@),
    ensures
        plex_outcome(p, raw, now) is Ok,
        plex_outcome(p, raw, now)->Ok_0.target_grain == "recording"@,
{
    lemma_music_items_are_recordings(p.media_type->Some_0@);
    assert(opt_string_view(p.event) == Some(p.event->Some_0@));
}

} // verus!
