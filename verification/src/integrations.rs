//! Normalization of media-server webhooks (Tautulli, Jellyfin, Nuvio, Emby
//! and Plex) into one completed-occurrence observation: media kind to
//! grain, provider keys to identifier namespaces, bounded identifier
//! lists, clamped playback positions, and stable event identities.

use crate::headers::{first_text, RequestHeaders};
use crate::idmap::{distinct_keys, inserted_all, lemma_inserted_all_order_independent, pair_view, IdMap};
use crate::text::{
    ascii_lower_seq, byte_len, exceeds_bytes, chars_eq, chars_eq_ignore_ascii_case, chars_of, eq_ignore_ascii_case,
    is_alphanumeric_char, is_ascii_alphanumeric, lower_chars, push_chars, push_str, segments,
    split_chars, split_once, split_once_chars, string_from_chars, trim, trim_chars,
};
use vstd::prelude::*;
use vstd::utf8::{decode_utf8, valid_utf8};

verus! {

/// Whether a `Content-Type` value declares JSON: its media type, trimmed,
/// is `application/json` in any ASCII case.
pub open spec fn is_json_content_type(value: Option<Seq<char>>) -> bool {
    match value {
        Some(v) => eq_ignore_ascii_case(trim(segments(v, ';')[0]), "application/json"@),
        None => false,
    }
}

/// Whether the request's first `Content-Type` declares JSON.
pub fn content_type_is_json(headers: &RequestHeaders) -> (r: bool)
    ensures
        r == is_json_content_type(first_text(headers.values("content-type"@))),
{
    match headers.first("content-type") {
        Some(value) => {
            let parts = split_chars(&value, ';');
            let media = trim_chars(&parts[0]);
            let json = chars_of("application/json");
            chars_eq_ignore_ascii_case(&media, &json)
        },
        None => false,
    }
}


/// The grain a media server's item type denotes, after trimming and ASCII
/// lower-casing: films, episodes, recordings and series.
pub open spec fn grain_of(item_type: Seq<char>) -> Option<Seq<char>> {
    let t = ascii_lower_seq(trim(item_type));
    if t == "movie"@ || t == "film"@ {
        Some("film"@)
    } else if t == "episode"@ {
        Some("episode"@)
    } else if t == "track"@ || t == "audio"@ || t == "song"@ {
        Some("recording"@)
    } else if t == "series"@ || t == "show"@ {
        Some("series"@)
    } else {
        None
    }
}

fn is_word(t: &[char], word: &str) -> (r: bool)
    ensures
        r == (t@ == word@),
{
    let w = chars_of(word);
    chars_eq(t, &w)
}

/// Maps a media server's item type to a registered grain.
pub fn grain_for_item_type(item_type: &str) -> (grain: Option<&'static str>)
    ensures
        match grain {
            Some(g) => grain_of(item_type@) == Some(g@),
            None => grain_of(item_type@).is_none(),
        },
{
    let raw = chars_of(item_type);
    let trimmed = trim_chars(&raw);
    let t = lower_chars(&trimmed);
    if is_word(&t, "movie") || is_word(&t, "film") {
        Some("film")
    } else if is_word(&t, "episode") {
        Some("episode")
    } else if is_word(&t, "track") || is_word(&t, "audio") || is_word(&t, "song") {
        Some("recording")
    } else if is_word(&t, "series") || is_word(&t, "show") {
        Some("series")
    } else {
        None
    }
}

pub open spec fn is_provider_key_char(c: char) -> bool {
    is_ascii_alphanumeric(c) || c == '_' || c == '-' || c == '.'
}

/// The namespace of a provider's identifiers for a grain: the provider key
/// is trimmed and lower-cased, must be 1 to 40 letters, digits, `_`, `-`
/// or `.`; well-known providers map to their registered namespaces, any
/// other gives `provider.grain`, which may not exceed 64 bytes.
pub open spec fn namespace_of(provider: Seq<char>, grain: Seq<char>) -> Option<Seq<char>> {
    let p = ascii_lower_seq(trim(provider));
    if p.len() == 0 || p.len() > 40 || !(forall|i: int|
        0 <= i < p.len() ==> is_provider_key_char(#[trigger] p[i])) {
        None
    } else if p == "imdb"@ {
        Some("imdb.title"@)
    } else if p == "tmdb"@ && grain == "film"@ {
        Some("tmdb.movie"@)
    } else if p == "tmdb"@ && grain == "series"@ {
        Some("tmdb.series"@)
    } else if p == "tmdb"@ && grain == "episode"@ {
        Some("tmdb.episode"@)
    } else if p == "tvdb"@ && grain == "series"@ {
        Some("tvdb.series"@)
    } else if p == "tvdb"@ && grain == "episode"@ {
        Some("tvdb.episode"@)
    } else if p == "musicbrainz"@ && grain == "recording"@ {
        Some("musicbrainz.recording"@)
    } else if p.len() + 1 + byte_len(grain) <= 64 {
        Some(p + "."@ + grain)
    } else {
        None
    }
}

fn fixed_namespace(out: &mut Option<Vec<char>>, name: &str)
    ensures
        opt_view(*final(out)) == Some(name@),
{
    *out = Some(chars_of(name));
}

pub open spec fn opt_view(v: Option<Vec<char>>) -> Option<Seq<char>> {
    match v {
        Some(s) => Some(s@),
        None => None,
    }
}

/// Namespace of a provider's identifiers, over characters.
pub fn namespace_chars(provider: &[char], grain: &[char]) -> (r: Option<Vec<char>>)
    ensures
        opt_view(r) == namespace_of(provider@, grain@),
{
    let trimmed = trim_chars(provider);
    let p = lower_chars(&trimmed);
    if p.len() == 0 || p.len() > 40 {
        return None;
    }
    let mut i: usize = 0;
    while i < p.len()
        invariant
            i <= p@.len(),
            p@ == ascii_lower_seq(trim(provider@)),
            0 < p@.len() <= 40,
            forall|j: int| 0 <= j < i ==> is_provider_key_char(#[trigger] p@[j]),
        decreases p@.len() - i,
    {
        let c = p[i];
        if !(is_alphanumeric_char(c) || c == '_' || c == '-' || c == '.') {
            return None;
        }
        i = i + 1;
    }
    let mut r: Option<Vec<char>> = None;
    let g_film = is_word(grain, "film");
    let g_series = is_word(grain, "series");
    let g_episode = is_word(grain, "episode");
    let g_recording = is_word(grain, "recording");
    if is_word(&p, "imdb") {
        fixed_namespace(&mut r, "imdb.title");
    } else if is_word(&p, "tmdb") && g_film {
        fixed_namespace(&mut r, "tmdb.movie");
    } else if is_word(&p, "tmdb") && g_series {
        fixed_namespace(&mut r, "tmdb.series");
    } else if is_word(&p, "tmdb") && g_episode {
        fixed_namespace(&mut r, "tmdb.episode");
    } else if is_word(&p, "tvdb") && g_series {
        fixed_namespace(&mut r, "tvdb.series");
    } else if is_word(&p, "tvdb") && g_episode {
        fixed_namespace(&mut r, "tvdb.episode");
    } else if is_word(&p, "musicbrainz") && g_recording {
        fixed_namespace(&mut r, "musicbrainz.recording");
    } else if !exceeds_bytes(grain, 63 - p.len()) {
        let mut ns: Vec<char> = Vec::new();
        push_chars(&mut ns, &p);
        push_str(&mut ns, ".");
        push_chars(&mut ns, grain);
        r = Some(ns);
    }
    r
}

/// The namespace for a provider key and grain, as `namespace_of` states.
pub fn namespace_for(provider: &str, grain: &str) -> (namespace: Option<String>)
    ensures
        match namespace {
            Some(n) => namespace_of(provider@, grain@) == Some(n@),
            None => namespace_of(provider@, grain@).is_none(),
        },
{
    let p = chars_of(provider);
    let g = chars_of(grain);
    match namespace_chars(&p, &g) {
        Some(n) => Some(string_from_chars(&n)),
        None => None,
    }
}


/// An external identifier clue of an observation.
pub struct ObservationIdentifier {
    pub namespace: String,
    pub grain: String,
    pub value: String,
}

pub open spec fn identifier_view(i: ObservationIdentifier) -> (Seq<char>, Seq<char>, Seq<char>) {
    (i.namespace@, i.grain@, i.value@)
}

pub open spec fn identifiers_view(v: Seq<ObservationIdentifier>) -> Seq<
    (Seq<char>, Seq<char>, Seq<char>),
> {
    Seq::new(v.len(), |i: int| identifier_view(v[i]))
}

/// Why a webhook is not a supported completed occurrence.
#[derive(Clone, Copy, Debug, PartialEq, Eq, Structural)]
pub enum IntegrationViolation {
    /// `/completed`: only complete consumption occurrences are accepted.
    IncompleteOccurrence,
    /// `/item_type`: the media kind is not supported.
    UnsupportedItemType,
    /// `/provider_ids`: an identifier is empty or longer than 512 bytes.
    ProviderIdentifierBounds,
    /// `/provider_ids`: a provider key is not a safe bounded identifier.
    ProviderNamespaceUnsafe,
    /// `/provider_ids`: more than 16 item and series identifiers.
    TooManyProviderIdentifiers,
    /// `/Event`: the Emby event is not an explicit completion.
    EmbyNotCompleted,
    /// `/Event`: the Emby event is not playback-stop or mark-played.
    EmbyUnsupportedEvent,
    /// `/Item/Type`: the Emby item type is not supported.
    EmbyUnsupportedItemType,
    /// `/Item/ProviderIds`: more than 16 Emby identity clues.
    EmbyTooManyIdentifiers,
    /// `/event`: the Plex event is not `media.scrobble`.
    PlexNotScrobble,
    /// `/Metadata/type`: the Plex media type is not supported.
    PlexUnsupportedMediaType,
}

/// Appending the identifiers of `entries`, in order: each value must hold
/// 1 to 512 bytes, each provider key must give a namespace, and the list
/// may not grow past 16.
pub open spec fn push_ids_spec(
    out: Seq<(Seq<char>, Seq<char>, Seq<char>)>,
    entries: Seq<(Seq<char>, Seq<char>)>,
    grain: Seq<char>,
) -> Result<Seq<(Seq<char>, Seq<char>, Seq<char>)>, IntegrationViolation>
    decreases entries.len(),
{
    if entries.len() == 0 {
        Ok(out)
    } else {
        let provider = entries[0].0;
        let value = entries[0].1;
        if value.len() == 0 || byte_len(value) > 512 {
            Err(IntegrationViolation::ProviderIdentifierBounds)
        } else {
            match namespace_of(provider, grain) {
                None => Err(IntegrationViolation::ProviderNamespaceUnsafe),
                Some(ns) => {
                    let next = out.push((ns, grain, value));
                    if next.len() > 16 {
                        Err(IntegrationViolation::TooManyProviderIdentifiers)
                    } else {
                        push_ids_spec(next, entries.drop_first(), grain)
                    }
                },
            }
        }
    }
}

/// Appends one identifier per provider entry, in key order.
pub fn push_ids(output: &mut Vec<ObservationIdentifier>, values: &IdMap, grain: &str) -> (r: Result<
    (),
    IntegrationViolation,
>)
    ensures
        match r {
            Ok(()) => push_ids_spec(identifiers_view(old(output)@), values@, grain@) == Ok::<
                Seq<(Seq<char>, Seq<char>, Seq<char>)>,
                IntegrationViolation,
            >(identifiers_view(final(output)@)),
            Err(e) => push_ids_spec(identifiers_view(old(output)@), values@, grain@) == Err::<
                Seq<(Seq<char>, Seq<char>, Seq<char>)>,
                IntegrationViolation,
            >(e),
        },
{
    let entries = values.entries();
    let g = chars_of(grain);
    let ghost start = identifiers_view(output@);
    let mut i: usize = 0;
    assert(values@.skip(0) =~= values@);
    while i < entries.len()
        invariant
            i <= entries@.len(),
            entries@.len() == values@.len(),
            forall|k: int| 0 <= k < entries@.len() ==> #[trigger] pair_view(entries@[k]) == values@[k],
            g@ == grain@,
            start == identifiers_view(old(output)@),
            push_ids_spec(start, values@, grain@) == push_ids_spec(
                identifiers_view(output@),
                values@.skip(i as int),
                grain@,
            ),
        decreases entries@.len() - i,
    {
        let ghost rest = values@.skip(i as int);
        assert(rest[0] == values@[i as int]);
        assert(rest.drop_first() =~= values@.skip(i + 1));
        assert(pair_view(entries@[i as int]) == values@[i as int]);
        let provider = &entries[i].0;
        let value = &entries[i].1;
        let vc = chars_of(value.as_str());
        if vc.len() == 0 || exceeds_bytes(&vc, 512) {
            return Err(IntegrationViolation::ProviderIdentifierBounds);
        }
        let pc = chars_of(provider.as_str());
        let namespace = match namespace_chars(&pc, &g) {
            Some(n) => n,
            None => return Err(IntegrationViolation::ProviderNamespaceUnsafe),
        };
        let ghost before = identifiers_view(output@);
        output.push(
            ObservationIdentifier {
                namespace: string_from_chars(&namespace),
                grain: string_from_chars(&g),
                value: value.clone(),
            },
        );
        assert(identifiers_view(output@) =~= before.push((namespace@, grain@, value@)));
        if output.len() > 16 {
            return Err(IntegrationViolation::TooManyProviderIdentifiers);
        }
        i = i + 1;
    }
    assert(values@.skip(i as int).len() == 0);
    Ok(())
}


/// The identity of the source event an observation reports.
pub enum EventIdentity {
    /// The identity the source supplied.
    Given(String),
    /// Text from which the observation layer derives a deterministic
    /// identity: stable fields of the event, or the raw delivery.
    Lexeme(String),
}

/// A completed consumption occurrence ready for the observation layer.
/// Its progress is always complete.
pub struct NormalizedObservation {
    pub source: String,
    pub event: EventIdentity,
    pub observed_at: String,
    pub occurred_at: Option<String>,
    pub target_grain: String,
    pub identifiers: Vec<ObservationIdentifier>,
    pub title: Option<String>,
    pub position_seconds: Option<u64>,
    pub duration_seconds: Option<u64>,
}

/// A normalized observation as plain values.
pub struct ObservationView {
    pub source: Seq<char>,
    pub event_given: bool,
    pub event: Seq<char>,
    pub observed_at: Seq<char>,
    pub occurred_at: Option<Seq<char>>,
    pub target_grain: Seq<char>,
    pub identifiers: Seq<(Seq<char>, Seq<char>, Seq<char>)>,
    pub title: Option<Seq<char>>,
    pub position_seconds: Option<u64>,
    pub duration_seconds: Option<u64>,
}

pub open spec fn opt_string_view(v: Option<String>) -> Option<Seq<char>> {
    match v {
        Some(s) => Some(s@),
        None => None,
    }
}

impl View for NormalizedObservation {
    type V = ObservationView;

    open spec fn view(&self) -> ObservationView {
        ObservationView {
            source: self.source@,
            event_given: self.event is Given,
            event: match self.event {
                EventIdentity::Given(s) => s@,
                EventIdentity::Lexeme(s) => s@,
            },
            observed_at: self.observed_at@,
            occurred_at: opt_string_view(self.occurred_at),
            target_grain: self.target_grain@,
            identifiers: identifiers_view(self.identifiers@),
            title: opt_string_view(self.title),
            position_seconds: self.position_seconds,
            duration_seconds: self.duration_seconds,
        }
    }
}

/// The body of the generic playback webhook shared by Tautulli, Jellyfin
/// and Nuvio.
pub struct TemplateRequest {
    pub completed: bool,
    pub item_type: String,
    pub provider_ids: IdMap,
    pub series_provider_ids: IdMap,
    pub series_title: Option<String>,
    pub title: Option<String>,
    pub source_event_id: String,
    pub observed_at: String,
    pub occurred_at: Option<String>,
    pub position_seconds: Option<u64>,
    pub duration_seconds: Option<u64>,
}

/// An episode is titled `series — episode`; otherwise the item title, or
/// the series title when that is all there is.
pub open spec fn template_title(
    series: Option<Seq<char>>,
    title: Option<Seq<char>>,
    grain: Seq<char>,
) -> Option<Seq<char>> {
    if series.is_some() && title.is_some() && grain == "episode"@ {
        Some(series.unwrap() + " \u{2014} "@ + title.unwrap())
    } else if title.is_some() {
        title
    } else {
        series
    }
}

pub open spec fn or_else_u64(a: Option<u64>, b: Option<u64>) -> Option<u64> {
    match a {
        Some(x) => Some(x),
        None => b,
    }
}

/// What the generic playback webhook normalizes to: only complete
/// occurrences of a supported kind; item identifiers, then, for an episode,
/// its series identifiers; the position defaults to the duration.
pub open spec fn template_outcome(source: Seq<char>, req: TemplateRequest) -> Result<
    ObservationView,
    IntegrationViolation,
> {
    if !req.completed {
        Err(IntegrationViolation::IncompleteOccurrence)
    } else {
        match grain_of(req.item_type@) {
            None => Err(IntegrationViolation::UnsupportedItemType),
            Some(grain) => match push_ids_spec(seq![], req.provider_ids@, grain) {
                Err(e) => Err(e),
                Ok(items) => {
                    let all = if grain == "episode"@ {
                        push_ids_spec(items, req.series_provider_ids@, "series"@)
                    } else {
                        Ok(items)
                    };
                    match all {
                        Err(e) => Err(e),
                        Ok(ids) => Ok(
                            ObservationView {
                                source,
                                event_given: true,
                                event: req.source_event_id@,
                                observed_at: req.observed_at@,
                                occurred_at: opt_string_view(req.occurred_at),
                                target_grain: grain,
                                identifiers: ids,
                                title: template_title(
                                    opt_string_view(req.series_title),
                                    opt_string_view(req.title),
                                    grain,
                                ),
                                position_seconds: or_else_u64(
                                    req.position_seconds,
                                    req.duration_seconds,
                                ),
                                duration_seconds: req.duration_seconds,
                            },
                        ),
                    }
                },
            },
        }
    }
}

pub fn clone_opt(v: &Option<String>) -> (r: Option<String>)
    ensures
        opt_string_view(r) == opt_string_view(*v),
{
    match v {
        Some(s) => Some(s.clone()),
        None => None,
    }
}

fn template_title_of(series: &Option<String>, title: &Option<String>, grain: &[char]) -> (r:
    Option<String>)
    ensures
        opt_string_view(r) == template_title(
            opt_string_view(*series),
            opt_string_view(*title),
            grain@,
        ),
{
    let episode = is_word(grain, "episode");
    match (series, title) {
        (Some(s), Some(t)) => {
            if episode {
                let mut out: Vec<char> = Vec::new();
                push_str(&mut out, s.as_str());
                push_str(&mut out, " \u{2014} ");
                push_str(&mut out, t.as_str());
                Some(string_from_chars(&out))
            } else {
                Some(t.clone())
            }
        },
        (None, Some(t)) => Some(t.clone()),
        (Some(s), None) => Some(s.clone()),
        (None, None) => None,
    }
}

/// Normalizes the generic playback webhook of `source`.
pub fn normalize_template_request(source: &str, request: &TemplateRequest) -> (r: Result<
    NormalizedObservation,
    IntegrationViolation,
>)
    ensures
        match r {
            Ok(n) => template_outcome(source@, *request) == Ok::<
                ObservationView,
                IntegrationViolation,
            >(n@),
            Err(e) => template_outcome(source@, *request) == Err::<
                ObservationView,
                IntegrationViolation,
            >(e),
        },
{
    if !request.completed {
        return Err(IntegrationViolation::IncompleteOccurrence);
    }
    let grain = match grain_for_item_type(request.item_type.as_str()) {
        Some(g) => g,
        None => return Err(IntegrationViolation::UnsupportedItemType),
    };
    let mut identifiers: Vec<ObservationIdentifier> = Vec::new();
    assert(identifiers_view(identifiers@) =~= seq![]);
    match push_ids(&mut identifiers, &request.provider_ids, grain) {
        Ok(()) => {},
        Err(e) => return Err(e),
    }
    let gc = chars_of(grain);
    let episode = is_word(&gc, "episode");
    if episode {
        match push_ids(&mut identifiers, &request.series_provider_ids, "series") {
            Ok(()) => {},
            Err(e) => return Err(e),
        }
    }
    let title = template_title_of(&request.series_title, &request.title, &gc);
    let position = match request.position_seconds {
        Some(p) => Some(p),
        None => request.duration_seconds,
    };
    Ok(
        NormalizedObservation {
            source: string_from_chars(&chars_of(source)),
            event: EventIdentity::Given(request.source_event_id.clone()),
            observed_at: request.observed_at.clone(),
            occurred_at: clone_opt(&request.occurred_at),
            target_grain: string_from_chars(&gc),
            identifiers,
            title,
            position_seconds: position,
            duration_seconds: request.duration_seconds,
        },
    )
}


/// Whole seconds in a count of 100-nanosecond ticks.
pub fn ticks_to_seconds(value: Option<u64>) -> (seconds: Option<u64>)
    ensures
        seconds == match value {
            Some(t) => Some((t / 10_000_000) as u64),
            None => None::<u64>,
        },
{
    match value {
        Some(ticks) => Some(ticks / 10_000_000),
        None => None,
    }
}

pub open spec fn clamp_spec(position: Option<u64>, duration: Option<u64>) -> Option<u64> {
    match (position, duration) {
        (Some(p), Some(d)) => Some(if p <= d {
            p
        } else {
            d
        }),
        (Some(p), None) => Some(p),
        (None, d) => d,
    }
}

/// A reported position never past the duration; without a position, the
/// duration stands for a completed playback.
pub fn clamp_position(position: Option<u64>, duration: Option<u64>) -> (r: Option<u64>)
    ensures
        r == clamp_spec(position, duration),
{
    match (position, duration) {
        (Some(position), Some(duration)) => Some(
            if position <= duration {
                position
            } else {
                duration
            },
        ),
        (Some(position), None) => Some(position),
        (None, duration) => duration,
    }
}

/// `String::from_utf8_lossy` of `bytes`.
pub uninterp spec fn utf8_lossy(bytes: Seq<u8>) -> Seq<char>;

/// `String::from_utf8_lossy`: the text of `bytes`, with each invalid
/// sequence replaced by U+FFFD. Valid UTF-8 decodes unchanged.
#[verifier::external_body]
pub fn lossy_text(bytes: &[u8]) -> (text: String)
    ensures
        text@ == utf8_lossy(bytes@),
        valid_utf8(bytes@) ==> text@ == decode_utf8(bytes@),
{
    String::from_utf8_lossy(bytes).into_owned()
}

pub open spec fn first_some(a: Option<Seq<char>>, b: Option<Seq<char>>) -> Option<Seq<char>> {
    if a.is_some() {
        a
    } else {
        b
    }
}

fn first_of(a: &Option<String>, b: &Option<String>) -> (r: Option<String>)
    ensures
        opt_string_view(r) == first_some(opt_string_view(*a), opt_string_view(*b)),
{
    match a {
        Some(x) => Some(x.clone()),
        None => clone_opt(b),
    }
}

pub open spec fn or_empty(v: Option<Seq<char>>) -> Seq<char> {
    match v {
        Some(s) => s,
        None => seq![],
    }
}

/// The fields of an Emby webhook that the adapter reads, each present when
/// the JSON holds a value of the expected type at its pointer.
pub struct EmbyPayload {
    /// `/Event`
    pub event: Option<String>,
    /// `/NotificationType`
    pub notification_type: Option<String>,
    /// `/notificationType`
    pub notification_type_camel: Option<String>,
    /// `/PlayedToCompletion`
    pub played_to_completion: Option<bool>,
    /// `/Item/UserData/Played`
    pub item_played: Option<bool>,
    /// `/Item/Type`
    pub item_type: Option<String>,
    /// `/Item/Id`
    pub item_id: Option<String>,
    /// `/Item/ProviderIds`: the object's string members, in the order the
    /// JSON object is walked; `None` when it is not an object.
    pub item_provider_ids: Option<Vec<(String, String)>>,
    /// `/Item/SeriesId`
    pub item_series_id: Option<String>,
    /// `/UtcTimestamp`
    pub utc_timestamp: Option<String>,
    /// `/Timestamp`
    pub timestamp: Option<String>,
    /// `/Item/Name`
    pub item_name: Option<String>,
    /// `/Item/RunTimeTicks`
    pub item_run_time_ticks: Option<u64>,
    /// `/Session/PlayState/PositionTicks`
    pub session_position_ticks: Option<u64>,
    /// `/PlaybackPositionTicks`
    pub playback_position_ticks: Option<u64>,
}

pub open spec fn pairs_view(v: Seq<(String, String)>) -> Seq<(Seq<char>, Seq<char>)> {
    Seq::new(v.len(), |i: int| pair_view(v[i]))
}

pub open spec fn lowered_keys(v: Seq<(Seq<char>, Seq<char>)>) -> Seq<(Seq<char>, Seq<char>)> {
    Seq::new(v.len(), |i: int| (ascii_lower_seq(v[i].0), v[i].1))
}

/// The Emby event name, ASCII lower-cased: `/Event`, else
/// `/NotificationType`, else `/notificationType`, else empty.
pub open spec fn emby_event(p: EmbyPayload) -> Seq<char> {
    ascii_lower_seq(
        or_empty(
            first_some(
                opt_string_view(p.event),
                first_some(
                    opt_string_view(p.notification_type),
                    opt_string_view(p.notification_type_camel),
                ),
            ),
        ),
    )
}

/// Whether an Emby webhook reports a completed playback: explicitly, or by
/// a mark-played event when completion is not stated.
pub open spec fn emby_complete(p: EmbyPayload) -> bool {
    match p.played_to_completion {
        Some(b) => b,
        None => match p.item_played {
            Some(b) => b,
            None => emby_event(p) == "item.markplayed"@ || emby_event(p) == "itemmarkedplayed"@,
        },
    }
}

pub open spec fn emby_supported_event(e: Seq<char>) -> bool {
    e == "playback.stop"@ || e == "playbackstop"@ || e == "item.markplayed"@ || e
        == "itemmarkedplayed"@
}

pub open spec fn positive(v: Option<u64>) -> Option<u64> {
    match v {
        Some(x) => if x > 0 {
            Some(x)
        } else {
            None
        },
        None => None,
    }
}

pub open spec fn div_opt(v: Option<u64>, d: u64) -> Option<u64> {
    match v {
        Some(x) => Some((x / d) as u64),
        None => None,
    }
}

pub open spec fn first_some_u64(a: Option<u64>, b: Option<u64>) -> Option<u64> {
    if a.is_some() {
        a
    } else {
        b
    }
}

/// The stable identity text of an Emby event: item, event and its explicit
/// time when both are present; otherwise the raw delivery.
pub open spec fn emby_lexeme(p: EmbyPayload, raw: Seq<u8>) -> Seq<char> {
    let explicit = first_some(opt_string_view(p.utc_timestamp), opt_string_view(p.timestamp));
    if p.item_id.is_some() && explicit.is_some() {
        "emby:"@ + p.item_id.unwrap()@ + ":"@ + emby_event(p) + ":"@ + explicit.unwrap()
    } else {
        utf8_lossy(raw)
    }
}

/// What an Emby webhook normalizes to.
pub open spec fn emby_outcome(p: EmbyPayload, raw: Seq<u8>, now: Seq<char>) -> Result<
    ObservationView,
    IntegrationViolation,
> {
    let event = emby_event(p);
    if !emby_complete(p) {
        Err(IntegrationViolation::EmbyNotCompleted)
    } else if !emby_supported_event(event) {
        Err(IntegrationViolation::EmbyUnsupportedEvent)
    } else {
        let item_type = match p.item_type {
            Some(t) => t@,
            None => "custom"@,
        };
        match grain_of(item_type) {
            None => Err(IntegrationViolation::EmbyUnsupportedItemType),
            Some(grain) => {
                let ids0 = match p.item_id {
                    Some(id) => seq![("emby."@ + grain, grain, id@)],
                    None => seq![],
                };
                let ids1 = match p.item_provider_ids {
                    Some(obj) => push_ids_spec(
                        ids0,
                        inserted_all(lowered_keys(pairs_view(obj@))),
                        grain,
                    ),
                    None => Ok(ids0),
                };
                match ids1 {
                    Err(e) => Err(e),
                    Ok(ids1) => {
                        let ids2 = if grain == "episode"@ && p.item_series_id.is_some() {
                            ids1.push(("emby.series"@, "series"@, p.item_series_id.unwrap()@))
                        } else {
                            ids1
                        };
                        if ids2.len() > 16 {
                            Err(IntegrationViolation::EmbyTooManyIdentifiers)
                        } else {
                            let explicit = first_some(
                                opt_string_view(p.utc_timestamp),
                                opt_string_view(p.timestamp),
                            );
                            let duration = positive(div_opt(p.item_run_time_ticks, 10_000_000));
                            Ok(
                                ObservationView {
                                    source: "emby"@,
                                    event_given: false,
                                    event: emby_lexeme(p, raw),
                                    observed_at: match explicit {
                                        Some(t) => t,
                                        None => now,
                                    },
                                    occurred_at: None,
                                    target_grain: grain,
                                    identifiers: ids2,
                                    title: opt_string_view(p.item_name),
                                    position_seconds: clamp_spec(
                                        div_opt(
                                            first_some_u64(
                                                p.session_position_ticks,
                                                p.playback_position_ticks,
                                            ),
                                            10_000_000,
                                        ),
                                        duration,
                                    ),
                                    duration_seconds: duration,
                                },
                            )
                        }
                    },
                }
            },
        }
    }
}

pub fn push_identifier(out: &mut Vec<ObservationIdentifier>, namespace: &[char], grain: &[char], value: &String)
    ensures
        identifiers_view(final(out)@) == identifiers_view(old(out)@).push(
            (namespace@, grain@, value@),
        ),
{
    out.push(
        ObservationIdentifier {
            namespace: string_from_chars(namespace),
            grain: string_from_chars(grain),
            value: value.clone(),
        },
    );
    assert(identifiers_view(out@) =~= identifiers_view(old(out)@).push(
        (namespace@, grain@, value@),
    ));
}

fn lowered_map(pairs: &Vec<(String, String)>) -> (m: IdMap)
    ensures
        m@ == inserted_all(lowered_keys(pairs_view(pairs@))),
{
    let mut lowered: Vec<(String, String)> = Vec::new();
    let mut i: usize = 0;
    while i < pairs.len()
        invariant
            i <= pairs@.len(),
            pairs_view(lowered@) == lowered_keys(pairs_view(pairs@)).subrange(0, i as int),
        decreases pairs@.len() - i,
    {
        let key = chars_of(pairs[i].0.as_str());
        let low = lower_chars(&key);
        let ghost before = pairs_view(lowered@);
        lowered.push((string_from_chars(&low), pairs[i].1.clone()));
        assert(pairs_view(lowered@) =~= before.push((low@, pairs@[i as int].1@)));
        assert(lowered_keys(pairs_view(pairs@)).subrange(0, i + 1) =~= lowered_keys(
            pairs_view(pairs@),
        ).subrange(0, i as int).push((low@, pairs@[i as int].1@)));
        i = i + 1;
    }
    assert(lowered_keys(pairs_view(pairs@)).subrange(0, pairs@.len() as int) =~= lowered_keys(
        pairs_view(pairs@),
    ));
    IdMap::from_pairs(&lowered)
}

/// Normalizes an Emby webhook. `now` is the ingestion time, used as the
/// observation time only when the event carries none of its own.
pub fn emby_request(payload: &EmbyPayload, raw: &[u8], now: &str) -> (r: Result<
    NormalizedObservation,
    IntegrationViolation,
>)
    ensures
        match r {
            Ok(n) => emby_outcome(*payload, raw@, now@) == Ok::<
                ObservationView,
                IntegrationViolation,
            >(n@),
            Err(e) => emby_outcome(*payload, raw@, now@) == Err::<
                ObservationView,
                IntegrationViolation,
            >(e),
        },
{
    let named = first_of(&payload.event, &first_of(&payload.notification_type, &payload.notification_type_camel));
    let event_text = match named {
        Some(e) => chars_of(e.as_str()),
        None => Vec::new(),
    };
    let event = lower_chars(&event_text);
    let marked = is_word(&event, "item.markplayed") || is_word(&event, "itemmarkedplayed");
    let complete = match payload.played_to_completion {
        Some(b) => b,
        None => match payload.item_played {
            Some(b) => b,
            None => marked,
        },
    };
    if !complete {
        return Err(IntegrationViolation::EmbyNotCompleted);
    }
    if !(is_word(&event, "playback.stop") || is_word(&event, "playbackstop") || marked) {
        return Err(IntegrationViolation::EmbyUnsupportedEvent);
    }
    let grain = match &payload.item_type {
        Some(t) => grain_for_item_type(t.as_str()),
        None => grain_for_item_type("custom"),
    };
    let grain = match grain {
        Some(g) => g,
        None => return Err(IntegrationViolation::EmbyUnsupportedItemType),
    };
    let gc = chars_of(grain);
    let mut identifiers: Vec<ObservationIdentifier> = Vec::new();
    assert(identifiers_view(identifiers@) =~= seq![]);
    match &payload.item_id {
        Some(id) => {
            let mut ns: Vec<char> = Vec::new();
            push_str(&mut ns, "emby.");
            push_chars(&mut ns, &gc);
            push_identifier(&mut identifiers, &ns, &gc, id);
        },
        None => {},
    }
    match &payload.item_provider_ids {
        Some(obj) => {
            let ids = lowered_map(obj);
            match push_ids(&mut identifiers, &ids, grain) {
                Ok(()) => {},
                Err(e) => return Err(e),
            }
        },
        None => {},
    }
    if is_word(&gc, "episode") {
        match &payload.item_series_id {
            Some(series_id) => {
                let ns = chars_of("emby.series");
                let sg = chars_of("series");
                push_identifier(&mut identifiers, &ns, &sg, series_id);
            },
            None => {},
        }
    }
    if identifiers.len() > 16 {
        return Err(IntegrationViolation::EmbyTooManyIdentifiers);
    }
    let explicit = first_of(&payload.utc_timestamp, &payload.timestamp);
    let observed_at = match &explicit {
        Some(t) => t.clone(),
        None => string_from_chars(&chars_of(now)),
    };
    let lexeme = match (&payload.item_id, &explicit) {
        (Some(item_id), Some(at)) => {
            let mut l: Vec<char> = Vec::new();
            push_str(&mut l, "emby:");
            push_str(&mut l, item_id.as_str());
            push_str(&mut l, ":");
            push_chars(&mut l, &event);
            push_str(&mut l, ":");
            push_str(&mut l, at.as_str());
            string_from_chars(&l)
        },
        _ => lossy_text(raw),
    };
    let duration = match ticks_to_seconds(payload.item_run_time_ticks) {
        Some(s) => if s > 0 {
            Some(s)
        } else {
            None
        },
        None => None,
    };
    let position_ticks = match payload.session_position_ticks {
        Some(t) => Some(t),
        None => payload.playback_position_ticks,
    };
    let position = clamp_position(ticks_to_seconds(position_ticks), duration);
    let result = NormalizedObservation {
        source: string_from_chars(&chars_of("emby")),
        event: EventIdentity::Lexeme(lexeme),
        observed_at,
        occurred_at: None,
        target_grain: string_from_chars(&gc),
        identifiers,
        title: clone_opt(&payload.item_name),
        position_seconds: position,
        duration_seconds: duration,
    };
    proof {
        assert(result@.event =~= emby_lexeme(*payload, raw@));
    }
    Ok(result)
}


/// The identity of an Emby event never depends on when it was ingested:
/// the same delivery ingested at two times gets the same identity.
pub proof fn lemma_emby_identity_ignores_ingestion_time(
    p: EmbyPayload,
    raw: Seq<u8>,
    now1: Seq<char>,
    now2: Seq<char>,
)
    requires
        emby_outcome(p, raw, now1) is Ok,
    ensures
        emby_outcome(p, raw, now2) is Ok,
        emby_outcome(p, raw, now1)->Ok_0.event == emby_outcome(p, raw, now2)->Ok_0.event,
{
}

/// An Emby event with an item and an explicit time is identified by its
/// fields alone, whatever bytes delivered it.
pub proof fn lemma_emby_identity_ignores_delivery_bytes(
    p: EmbyPayload,
    raw1: Seq<u8>,
    raw2: Seq<u8>,
    now: Seq<char>,
)
    requires
        p.item_id.is_some(),
        p.utc_timestamp.is_some() || p.timestamp.is_some(),
        emby_outcome(p, raw1, now) is Ok,
    ensures
        emby_outcome(p, raw2, now) is Ok,
        emby_outcome(p, raw1, now)->Ok_0.event == emby_outcome(p, raw2, now)->Ok_0.event,
{
}


/// Two deliveries of the same Emby event that list the item's provider
/// identifiers in another order normalize to the same observation, as long
/// as no two provider keys differ only in ASCII case.
pub proof fn lemma_emby_outcome_ignores_provider_id_order(
    p1: EmbyPayload,
    p2: EmbyPayload,
    raw: Seq<u8>,
    now: Seq<char>,
)
    requires
        p1.item_provider_ids.is_some(),
        p2.item_provider_ids.is_some(),
        p2 == (EmbyPayload { item_provider_ids: p2.item_provider_ids, ..p1 }),
        distinct_keys(lowered_keys(pairs_view(p1.item_provider_ids.unwrap()@))),
        distinct_keys(lowered_keys(pairs_view(p2.item_provider_ids.unwrap()@))),
        forall|x: (Seq<char>, Seq<char>)|
            #![trigger pairs_view(p1.item_provider_ids.unwrap()@).contains(x)]
            #![trigger pairs_view(p2.item_provider_ids.unwrap()@).contains(x)]
            pairs_view(p1.item_provider_ids.unwrap()@).contains(x) <==> pairs_view(
                p2.item_provider_ids.unwrap()@,
            ).contains(x),
    ensures
        emby_outcome(p1, raw, now) == emby_outcome(p2, raw, now),
{
    let v1 = pairs_view(p1.item_provider_ids.unwrap()@);
    let v2 = pairs_view(p2.item_provider_ids.unwrap()@);
    let l1 = lowered_keys(v1);
    let l2 = lowered_keys(v2);
    assert forall|y: (Seq<char>, Seq<char>)|
        #![trigger l1.contains(y)]
        #![trigger l2.contains(y)]
        l1.contains(y) <==> l2.contains(y) by {
        if l1.contains(y) {
            let i = choose|i: int| 0 <= i < l1.len() && l1[i] == y;
            assert(v1.contains(v1[i]));
            let j = choose|j: int| 0 <= j < v2.len() && v2[j] == v1[i];
            assert(l2[j] == y);
        }
        if l2.contains(y) {
            let i = choose|i: int| 0 <= i < l2.len() && l2[i] == y;
            assert(v2.contains(v2[i]));
            let j = choose|j: int| 0 <= j < v1.len() && v1[j] == v2[i];
            assert(l1[j] == y);
        }
    }
    lemma_inserted_all_order_independent(l1, l2);
}

/// Whether an item type names music, in any ASCII case and with any
/// surrounding whitespace: a track, audio or a song.
pub open spec fn names_music(item_type: Seq<char>) -> bool {
    let lowered = ascii_lower_seq(trim(item_type));
    lowered == "song"@ || lowered == "audio"@ || lowered == "track"@
}

/// Music items are recordings: every item type that names a track, audio
/// or a song, in any case and surrounded by any whitespace, maps to the
/// `recording` grain.
pub proof fn lemma_music_items_are_recordings(item_type: Seq<char>)
    requires
        names_music(item_type),
    ensures
        grain_of(item_type) == Some("recording"@),
{
    reveal_strlit("track");
    reveal_strlit("audio");
    reveal_strlit("song");
    reveal_strlit("movie");
    reveal_strlit("film");
    reveal_strlit("episode");
    reveal_strlit("recording");
    let t = ascii_lower_seq(trim(item_type));
    assert(t != "movie"@ && t != "film"@ && t != "episode"@) by {
        if t == "track"@ {
            assert(t[0] == 't');
        } else if t == "audio"@ {
            assert(t[0] == 'a');
        } else {
            assert(t[0] == 's');
        }
        assert("movie"@[0] == 'm' && "film"@[0] == 'f' && "episode"@[0] == 'e');
    }
}

/// The namespace a valid provider key gives for a grain is
/// `provider.grain`, the registered names included, save for IMDb (always
/// `imdb.title`) and TMDB films (`tmdb.movie`).
pub proof fn lemma_provider_namespace_is_provider_dot_grain(provider: Seq<char>, grain: Seq<char>)
    requires
        ({
            let p = ascii_lower_seq(trim(provider));
            &&& 0 < p.len() <= 40
            &&& forall|i: int| 0 <= i < p.len() ==> is_provider_key_char(#[trigger] p[i])
            &&& p != "imdb"@
            &&& !(p == "tmdb"@ && grain == "film"@)
            &&& p.len() + 1 + byte_len(grain) <= 64
        }),
    ensures
        namespace_of(provider, grain) == Some(ascii_lower_seq(trim(provider)) + "."@ + grain),
{
    let p = ascii_lower_seq(trim(provider));
    reveal_strlit("tmdb");
    reveal_strlit("tvdb");
    reveal_strlit("musicbrainz");
    reveal_strlit(".");
    reveal_strlit("series");
    reveal_strlit("episode");
    reveal_strlit("recording");
    reveal_strlit("tmdb.series");
    reveal_strlit("tmdb.episode");
    reveal_strlit("tvdb.series");
    reveal_strlit("tvdb.episode");
    reveal_strlit("musicbrainz.recording");
    if p == "tmdb"@ && grain == "series"@ {
        assert("tmdb.series"@ =~= p + "."@ + grain);
    } else if p == "tmdb"@ && grain == "episode"@ {
        assert("tmdb.episode"@ =~= p + "."@ + grain);
    } else if p == "tvdb"@ && grain == "series"@ {
        assert("tvdb.series"@ =~= p + "."@ + grain);
    } else if p == "tvdb"@ && grain == "episode"@ {
        assert("tvdb.episode"@ =~= p + "."@ + grain);
    } else if p == "musicbrainz"@ && grain == "recording"@ {
        assert("musicbrainz.recording"@ =~= p + "."@ + grain);
    }
}

/// A normalized template webhook reports the submitted position, and when
/// none was submitted, the submitted duration.
pub proof fn lemma_template_position_defaults_to_duration(source: Seq<char>, req: TemplateRequest)
    ensures
        template_outcome(source, req) matches Ok(o) ==> o.position_seconds == match req.position_seconds {
            Some(p) => Some(p),
            None => req.duration_seconds,
        },
{
}

/// A completed template webhook of a supported kind whose identifiers fit
/// is accepted; its reported position is the submitted one, or the
/// duration when none was submitted.
pub proof fn lemma_template_without_position_reports_duration(source: Seq<char>, req: TemplateRequest)
    requires
        req.position_seconds.is_none(),
        template_outcome(source, req) is Ok,
    ensures
        template_outcome(source, req)->Ok_0.position_seconds == req.duration_seconds,
{
}

/// Appending provider identifiers fails only over an identifier's bounds,
/// an unsafe namespace or too many identifiers.
proof fn lemma_push_ids_errors(
    out: Seq<(Seq<char>, Seq<char>, Seq<char>)>,
    entries: Seq<(Seq<char>, Seq<char>)>,
    grain: Seq<char>,
)
    ensures
        push_ids_spec(out, entries, grain) matches Err(e) ==> e
            == IntegrationViolation::ProviderIdentifierBounds || e
            == IntegrationViolation::ProviderNamespaceUnsafe || e
            == IntegrationViolation::TooManyProviderIdentifiers,
    decreases entries.len(),
{
    if entries.len() > 0 {
        match namespace_of(entries[0].0, grain) {
            Some(ns) => lemma_push_ids_errors(
                out.push((ns, grain, entries[0].1)),
                entries.drop_first(),
                grain,
            ),
            None => {},
        }
    }
}

/// Whether an Emby webhook names its event (by `/Event`) as a mark-played
/// event, in any ASCII case.
pub open spec fn names_mark_played(p: EmbyPayload) -> bool {
    &&& p.event is Some
    &&& {
        let e = ascii_lower_seq(p.event->Some_0@);
        e == "item.markplayed"@ || e == "itemmarkedplayed"@
    }
}

/// A mark-played Emby event that states no completion is a completed
/// playback: it is answered exactly as the same event stating
/// `PlayedToCompletion: true`, and never refused as incomplete.
pub proof fn lemma_mark_played_counts_as_complete(p: EmbyPayload, raw: Seq<u8>, now: Seq<char>)
    requires
        names_mark_played(p),
        p.played_to_completion.is_none(),
        p.item_played.is_none(),
    ensures
        emby_outcome(p, raw, now) == emby_outcome(
            EmbyPayload { played_to_completion: Some(true), ..p },
            raw,
            now,
        ),
        emby_outcome(p, raw, now) != Err::<ObservationView, IntegrationViolation>(
            IntegrationViolation::EmbyNotCompleted,
        ),
{
    let q = EmbyPayload { played_to_completion: Some(true), ..p };
    assert(emby_event(q) == emby_event(p));
    assert(opt_string_view(p.event) == Some(p.event->Some_0@));
    assert(emby_event(p) == ascii_lower_seq(p.event->Some_0@));
    assert(emby_supported_event(emby_event(p)));
    lemma_emby_errors_after_completion(q, raw, now);
}

/// Once an Emby webhook is complete, it is refused only for its event,
/// its item type or its identifiers.
proof fn lemma_emby_errors_after_completion(p: EmbyPayload, raw: Seq<u8>, now: Seq<char>)
    requires
        emby_complete(p),
    ensures
        emby_outcome(p, raw, now) != Err::<ObservationView, IntegrationViolation>(
            IntegrationViolation::EmbyNotCompleted,
        ),
{
    let item_type = match p.item_type {
        Some(t) => t@,
        None => "custom"@,
    };
    match grain_of(item_type) {
        Some(grain) => {
            let ids0 = match p.item_id {
                Some(id) => seq![("emby."@ + grain, grain, id@)],
                None => seq![],
            };
            match p.item_provider_ids {
                Some(obj) => lemma_push_ids_errors(
                    ids0,
                    inserted_all(lowered_keys(pairs_view(obj@))),
                    grain,
                ),
                None => {},
            }
        },
        None => {},
    }
}

/// A stopped or mark-played Emby event of a music item that states
/// completion is accepted with the `recording` grain, or refused only for
/// its identifiers.
pub proof fn lemma_emby_music_is_recording(p: EmbyPayload, raw: Seq<u8>, now: Seq<char>)
    requires
        p.played_to_completion == Some(true),
        names_mark_played(p),
        p.item_type is Some,
        names_music(p.item_type->Some_0@),
    ensures
        emby_outcome(p, raw, now) matches Ok(o) ==> o.target_grain == "recording"@,
        emby_outcome(p, raw, now) != Err::<ObservationView, IntegrationViolation>(
            IntegrationViolation::EmbyUnsupportedItemType,
        ),
{
    lemma_music_items_are_recordings(p.item_type->Some_0@);
    assert(opt_string_view(p.event) == Some(p.event->Some_0@));
    assert(emby_supported_event(emby_event(p)));
    let grain = "recording"@;
    let ids0 = match p.item_id {
        Some(id) => seq![("emby."@ + grain, grain, id@)],
        None => seq![],
    };
    match p.item_provider_ids {
        Some(obj) => lemma_push_ids_errors(ids0, inserted_all(lowered_keys(pairs_view(obj@))), grain),
        None => {},
    }
}


/// Every item type maps to the grain its word names, in any ASCII case and
/// with any surrounding whitespace: films and movies to `film`, episodes to
/// `episode`, shows and series to `series`, music to `recording`; every
/// other item type is unsupported.
pub proof fn lemma_item_type_grains(item_type: Seq<char>)
    ensures
        ({
            let w = ascii_lower_seq(trim(item_type));
            &&& (w == "film"@ || w == "movie"@) ==> grain_of(item_type) == Some("film"@)
            &&& w == "episode"@ ==> grain_of(item_type) == Some("episode"@)
            &&& (w == "show"@ || w == "series"@) ==> grain_of(item_type) == Some("series"@)
            &&& names_music(item_type) ==> grain_of(item_type) == Some("recording"@)
            &&& !(w == "film"@ || w == "movie"@ || w == "episode"@ || w == "show"@ || w
                == "series"@ || names_music(item_type)) ==> grain_of(item_type).is_none()
        }),
{
    reveal_strlit("track");
    reveal_strlit("audio");
    reveal_strlit("song");
    reveal_strlit("movie");
    reveal_strlit("film");
    reveal_strlit("episode");
    reveal_strlit("series");
    reveal_strlit("show");
    let w = ascii_lower_seq(trim(item_type));
    if names_music(item_type) {
        lemma_music_items_are_recordings(item_type);
    }
    if w == "show"@ || w == "series"@ {
        assert(w[0] == 's');
        assert(w != "movie"@ && w != "film"@ && w != "episode"@);
        assert(w != "track"@ && w != "audio"@);
        if w == "show"@ {
            assert(w[1] == 'h');
        } else {
            assert(w.len() == 6);
        }
        assert(w != "song"@);
    }
    if w == "episode"@ {
        assert(w[0] == 'e');
        assert(w != "movie"@ && w != "film"@);
    }
}

/// The registered namespaces of the well-known providers, and no
/// namespace for an invalid provider key: IMDb identifiers are always
/// `imdb.title`, a TMDB film is `tmdb.movie`, and a key that is empty,
/// longer than 40 characters or holds a character other than a letter,
/// digit, `_`, `-` or `.` has none.
pub proof fn lemma_well_known_and_invalid_provider_namespaces(provider: Seq<char>, grain: Seq<char>)
    ensures
        ({
            let key = ascii_lower_seq(trim(provider));
            let valid = 0 < key.len() <= 40 && forall|i: int|
                0 <= i < key.len() ==> is_provider_key_char(#[trigger] key[i]);
            &&& !valid ==> namespace_of(provider, grain).is_none()
            &&& valid && key == "imdb"@ ==> namespace_of(provider, grain) == Some("imdb.title"@)
            &&& valid && key == "tmdb"@ && grain == "film"@ ==> namespace_of(provider, grain)
                == Some("tmdb.movie"@)
        }),
{
    reveal_strlit("imdb");
    reveal_strlit("tmdb");
    assert("tmdb"@[0] != "imdb"@[0]);
}

/// An Emby webhook that states its playback did not complete is refused
/// as incomplete, whatever else it holds; `PlayedToCompletion` decides
/// before `Item/UserData/Played`.
pub proof fn lemma_emby_stated_incomplete_is_refused(p: EmbyPayload, raw: Seq<u8>, now: Seq<char>)
    requires
        p.played_to_completion == Some(false) || (p.played_to_completion.is_none()
            && p.item_played == Some(false)),
    ensures
        emby_outcome(p, raw, now) == Err::<ObservationView, IntegrationViolation>(
            IntegrationViolation::EmbyNotCompleted,
        ),
{
}

/// A complete Emby webhook whose event is none of playback stop or mark
/// played (in either spelling, any ASCII case) is refused as an
/// unsupported event.
pub proof fn lemma_emby_other_events_are_refused(p: EmbyPayload, raw: Seq<u8>, now: Seq<char>)
    requires
        p.played_to_completion == Some(true),
        ({
            let e = emby_event(p);
            !(e == "playback.stop"@ || e == "playbackstop"@ || e == "item.markplayed"@
                || e == "itemmarkedplayed"@)
        }),
    ensures
        emby_outcome(p, raw, now) == Err::<ObservationView, IntegrationViolation>(
            IntegrationViolation::EmbyUnsupportedEvent,
        ),
{
}

/// A template webhook that is not complete is refused as incomplete; a
/// complete one whose item type names no grain is refused as unsupported.
pub proof fn lemma_template_refusals(source: Seq<char>, req: TemplateRequest)
    ensures
        !req.completed ==> template_outcome(source, req) == Err::<
            ObservationView,
            IntegrationViolation,
        >(IntegrationViolation::IncompleteOccurrence),
        req.completed && grain_of(req.item_type@).is_none() ==> template_outcome(source, req)
            == Err::<ObservationView, IntegrationViolation>(
            IntegrationViolation::UnsupportedItemType,
        ),
        template_outcome(source, req) matches Ok(o) ==> o.duration_seconds == req.duration_seconds
            && o.source == source && o.event == req.source_event_id@,
{
}


} // verus!
