//! The bounds an observation submission must meet before it reaches the
//! kernel, and the names its receipt reports.

use crate::text::{chars_of, exceeds_bytes, byte_len};
use vstd::prelude::*;

verus! {

/// What a submission claims of playback progress, classified from the
/// submitted percentage.
#[derive(Clone, Copy, Debug, PartialEq, Eq, Structural)]
pub enum ProgressClaim {
    /// No percentage was submitted.
    Absent,
    /// Not a finite value from 0 through 100.
    OutOfRange,
    /// A valid percentage below 100.
    Partial,
    /// Exactly 100.
    Complete,
}

/// The fields of a submitted observation that the bounds read.
pub struct ObservationSubmission {
    pub source: String,
    pub source_event_id: String,
    pub identifier_count: usize,
    pub title: Option<String>,
    pub progress: ProgressClaim,
    pub position_seconds: Option<u64>,
    pub duration_seconds: Option<u64>,
}

/// The first bound a submission breaks, with the field it points at.
#[derive(Clone, Copy, Debug, PartialEq, Eq, Structural)]
pub enum ObservationViolation {
    /// `/source`: 1 to 64 bytes.
    SourceBounds,
    /// `/source_event_id`: 1 to 256 bytes.
    SourceEventIdBounds,
    /// `/identifiers`: at most 16 clues.
    TooManyIdentifiers,
    /// `/title`: at most 512 bytes.
    TitleTooLong,
    /// `/progress_percent`: a finite value from 0 through 100.
    ProgressOutOfRange,
    /// `/progress_percent`: partial progress is not an occurrence.
    PartialProgress,
    /// `/duration_seconds`: positive when supplied.
    ZeroDuration,
    /// `/position_seconds`: not past the supplied duration.
    PositionBeyondDuration,
}

impl ObservationViolation {
    pub open spec fn pointer_text(self) -> Seq<char> {
        match self {
            ObservationViolation::SourceBounds => "/source"@,
            ObservationViolation::SourceEventIdBounds => "/source_event_id"@,
            ObservationViolation::TooManyIdentifiers => "/identifiers"@,
            ObservationViolation::TitleTooLong => "/title"@,
            ObservationViolation::ProgressOutOfRange => "/progress_percent"@,
            ObservationViolation::PartialProgress => "/progress_percent"@,
            ObservationViolation::ZeroDuration => "/duration_seconds"@,
            ObservationViolation::PositionBeyondDuration => "/position_seconds"@,
        }
    }

    /// The JSON pointer of the offending field.
    pub fn pointer(&self) -> (p: &'static str)
        ensures
            p@ == self.pointer_text(),
    {
        match self {
            ObservationViolation::SourceBounds => "/source",
            ObservationViolation::SourceEventIdBounds => "/source_event_id",
            ObservationViolation::TooManyIdentifiers => "/identifiers",
            ObservationViolation::TitleTooLong => "/title",
            ObservationViolation::ProgressOutOfRange => "/progress_percent",
            ObservationViolation::PartialProgress => "/progress_percent",
            ObservationViolation::ZeroDuration => "/duration_seconds",
            ObservationViolation::PositionBeyondDuration => "/position_seconds",
        }
    }
}

/// The first bound `s` breaks, checked in the order of the fields, or none.
pub open spec fn observation_violation(s: ObservationSubmission) -> Option<ObservationViolation> {
    if s.source@.len() == 0 || byte_len(s.source@) > 64 {
        Some(ObservationViolation::SourceBounds)
    } else if s.source_event_id@.len() == 0 || byte_len(s.source_event_id@) > 256 {
        Some(ObservationViolation::SourceEventIdBounds)
    } else if s.identifier_count > 16 {
        Some(ObservationViolation::TooManyIdentifiers)
    } else if s.title.is_some() && byte_len(s.title.unwrap()@) > 512 {
        Some(ObservationViolation::TitleTooLong)
    } else if s.progress == ProgressClaim::OutOfRange {
        Some(ObservationViolation::ProgressOutOfRange)
    } else if s.progress == ProgressClaim::Partial {
        Some(ObservationViolation::PartialProgress)
    } else if s.duration_seconds == Some(0u64) {
        Some(ObservationViolation::ZeroDuration)
    } else if s.position_seconds.is_some() && s.duration_seconds.is_some()
        && s.position_seconds.unwrap() > s.duration_seconds.unwrap() {
        Some(ObservationViolation::PositionBeyondDuration)
    } else {
        None
    }
}

fn text_out_of_bounds(text: &String, limit: usize) -> (r: bool)
    ensures
        r == (text@.len() == 0 || byte_len(text@) > limit),
{
    let cs = chars_of(text.as_str());
    cs.len() == 0 || exceeds_bytes(&cs, limit)
}

/// Checks the bounds of a submission; the error is the first broken one.
pub fn validate_request(request: &ObservationSubmission) -> (r: Result<(), ObservationViolation>)
    ensures
        match r {
            Ok(()) => observation_violation(*request).is_none(),
            Err(v) => observation_violation(*request) == Some(v),
        },
{
    if text_out_of_bounds(&request.source, 64) {
        return Err(ObservationViolation::SourceBounds);
    }
    if text_out_of_bounds(&request.source_event_id, 256) {
        return Err(ObservationViolation::SourceEventIdBounds);
    }
    if request.identifier_count > 16 {
        return Err(ObservationViolation::TooManyIdentifiers);
    }
    match &request.title {
        Some(title) => {
            let cs = chars_of(title.as_str());
            if exceeds_bytes(&cs, 512) {
                return Err(ObservationViolation::TitleTooLong);
            }
        },
        None => {},
    }
    match request.progress {
        ProgressClaim::OutOfRange => return Err(ObservationViolation::ProgressOutOfRange),
        ProgressClaim::Partial => return Err(ObservationViolation::PartialProgress),
        _ => {},
    }
    if request.duration_seconds == Some(0u64) {
        return Err(ObservationViolation::ZeroDuration);
    }
    match (request.position_seconds, request.duration_seconds) {
        (Some(position), Some(duration)) => {
            if position > duration {
                return Err(ObservationViolation::PositionBeyondDuration);
            }
        },
        _ => {},
    }
    Ok(())
}

/// How the kernel resolved an accepted observation.
#[derive(Clone, Copy, Debug, PartialEq, Eq, Structural)]
pub enum ObservationResolution {
    Unresolved,
    Resolved,
    Conflicted,
}

/// The name a receipt gives a resolution.
pub fn resolution_name(value: ObservationResolution) -> (name: &'static str)
    ensures
        name@ == match value {
            ObservationResolution::Unresolved => "unresolved"@,
            ObservationResolution::Resolved => "resolved"@,
            ObservationResolution::Conflicted => "conflicted"@,
        },
{
    match value {
        ObservationResolution::Unresolved => "unresolved",
        ObservationResolution::Resolved => "resolved",
        ObservationResolution::Conflicted => "conflicted",
    }
}

/// The disposition a receipt reports: a retry of an accepted event is
/// `replayed`, a first acceptance `committed`.
pub fn disposition_name(is_replay: bool) -> (name: &'static str)
    ensures
        name@ == if is_replay {
            "replayed"@
        } else {
            "committed"@
        },
{
    if is_replay {
        "replayed"
    } else {
        "committed"
    }
}

/// A hexadecimal digit in lower case, as JSON `\u` escapes write it.
pub open spec fn lower_hex_digit(n: int) -> char {
    if n == 0 { '0' } else if n == 1 { '1' } else if n == 2 { '2' } else if n == 3 { '3' }
    else if n == 4 { '4' } else if n == 5 { '5' } else if n == 6 { '6' } else if n == 7 { '7' }
    else if n == 8 { '8' } else if n == 9 { '9' } else if n == 10 { 'a' } else if n == 11 { 'b' }
    else if n == 12 { 'c' } else if n == 13 { 'd' } else if n == 14 { 'e' } else { 'f' }
}

/// The value of a lower-case hexadecimal digit.
pub open spec fn hex_digit_value(c: char) -> int {
    if c == '0' { 0 } else if c == '1' { 1 } else if c == '2' { 2 } else if c == '3' { 3 }
    else if c == '4' { 4 } else if c == '5' { 5 } else if c == '6' { 6 } else if c == '7' { 7 }
    else if c == '8' { 8 } else if c == '9' { 9 } else if c == 'a' { 10 } else if c == 'b' { 11 }
    else if c == 'c' { 12 } else if c == 'd' { 13 } else if c == 'e' { 14 } else { 15 }
}

/// How one character stands inside a JSON string literal: the quote and
/// the backslash escaped, the usual short escapes for backspace, tab, line
/// feed, form feed and carriage return, other control characters as
/// `\u00XX`, and everything else as itself.
pub open spec fn json_escaped_char(c: char) -> Seq<char> {
    if c == '"' {
        seq!['\\', '"']
    } else if c == '\\' {
        seq!['\\', '\\']
    } else if c == '\u{8}' {
        seq!['\\', 'b']
    } else if c == '\t' {
        seq!['\\', 't']
    } else if c == '\n' {
        seq!['\\', 'n']
    } else if c == '\u{c}' {
        seq!['\\', 'f']
    } else if c == '\r' {
        seq!['\\', 'r']
    } else if 0 <= (c as int) < 0x20 {
        seq!['\\', 'u', '0', '0', lower_hex_digit((c as int) / 16), lower_hex_digit((c as int) % 16)]
    } else {
        seq![c]
    }
}

/// The escaped characters of a JSON string literal.
pub open spec fn json_escaped(s: Seq<char>) -> Seq<char>
    decreases s.len(),
{
    if s.len() == 0 {
        seq![]
    } else {
        json_escaped_char(s[0]) + json_escaped(s.skip(1))
    }
}

/// A JSON string literal.
pub open spec fn json_string_literal(s: Seq<char>) -> Seq<char> {
    seq!['"'] + json_escaped(s) + seq!['"']
}

/// The compact JSON array of four strings.
pub open spec fn json_array4(a: Seq<char>, b: Seq<char>, c: Seq<char>, d: Seq<char>) -> Seq<char> {
    seq!['['] + json_string_literal(a) + seq![','] + json_string_literal(b) + seq![',']
        + json_string_literal(c) + seq![','] + json_string_literal(d) + seq![']']
}

/// `serde_json::to_string` on a tuple of four strings. serde_json writes a
/// tuple as a compact JSON array and each string as a literal escaped by
/// its fixed escape table; writing strings into memory cannot fail.
#[verifier::external_body]
fn json_text_of_four(a: &str, b: &str, c: &str, d: &str) -> (r: Option<String>)
    ensures
        r.is_some(),
        r.is_some() ==> r.unwrap()@ == json_array4(a@, b@, c@, d@),
{
    serde_json::to_string(&(a, b, c, d)).ok()
}

/// The material an observation's operation identity is derived from: the
/// JSON array of the word `observation`, the submitting client, the source
/// and the source's event id. A resubmission of the same event by the same
/// client therefore derives the same operation.
pub fn operation_material(client_id: &str, source: &str, source_event_id: &str) -> (r: String)
    ensures
        r@ == json_array4("observation"@, client_id@, source@, source_event_id@),
{
    match json_text_of_four("observation", client_id, source, source_event_id) {
        Some(text) => text,
        None => String::new(),
    }
}

/// The code point of a character.
pub open spec fn code_point(c: char) -> int {
    c as int
}

/// How many characters the escape at the front of `t` spans.
pub open spec fn json_escape_width(t: Seq<char>) -> int {
    if t[0] == '\\' && t.len() >= 6 && t[1] == 'u' {
        6
    } else if t[0] == '\\' && t.len() >= 2 {
        2
    } else {
        1
    }
}

/// The character that the escape at the front of `t` stands for.
pub open spec fn json_unescaped_char(t: Seq<char>) -> char {
    if t[0] != '\\' || t.len() < 2 {
        t[0]
    } else if t[1] == 'b' {
        '\u{8}'
    } else if t[1] == 't' {
        '\t'
    } else if t[1] == 'n' {
        '\n'
    } else if t[1] == 'f' {
        '\u{c}'
    } else if t[1] == 'r' {
        '\r'
    } else if t[1] == 'u' && t.len() >= 6 {
        choose|c: char| code_point(c) == 16 * hex_digit_value(t[4]) + hex_digit_value(t[5])
    } else {
        t[1]
    }
}

/// Reads the body of a JSON string literal up to its closing quote: the
/// characters it stands for and what follows the quote.
pub open spec fn json_literal_body(t: Seq<char>) -> Option<(Seq<char>, Seq<char>)>
    decreases t.len(),
{
    if t.len() == 0 {
        None
    } else if t[0] == '"' {
        Some((seq![], t.skip(1)))
    } else {
        match json_literal_body(t.skip(json_escape_width(t))) {
            Some((body, rest)) => Some((seq![json_unescaped_char(t)] + body, rest)),
            None => None,
        }
    }
}

/// An escaped string followed by a quote reads back as the string, and
/// the reader stops right after that quote.
pub proof fn lemma_json_literal_reads_back(s: Seq<char>, rest: Seq<char>)
    ensures
        json_literal_body(json_escaped(s) + seq!['"'] + rest) == Some((s, rest)),
    decreases s.len(),
{
    let t = json_escaped(s) + seq!['"'] + rest;
    if s.len() == 0 {
        assert(t =~= seq!['"'] + rest);
        assert(t.skip(1) =~= rest);
    } else {
        let c = s[0];
        let e = json_escaped_char(c);
        let tail = json_escaped(s.skip(1)) + seq!['"'] + rest;
        lemma_json_literal_reads_back(s.skip(1), rest);
        assert(t =~= e + tail);
        assert(t.len() >= e.len());
        assert(forall|i: int| 0 <= i < e.len() ==> t[i] == e[i]);
        assert(json_escape_width(t) == e.len());
        assert(t.skip(e.len() as int) =~= tail);
        if e.len() == 6 {
            let v = code_point(c);
            assert(0 <= v < 0x20);
            assert(hex_digit_value(lower_hex_digit(v / 16)) == v / 16);
            assert(hex_digit_value(lower_hex_digit(v % 16)) == v % 16);
            assert(code_point(c) == 16 * hex_digit_value(t[4]) + hex_digit_value(t[5]));
            let d = json_unescaped_char(t);
            assert(code_point(d) == code_point(c));
        }
        assert(json_unescaped_char(t) == c);
        assert(seq![c] + s.skip(1) =~= s);
    }
}

/// An escaped string, its closing quote, and what follows.
pub open spec fn quoted_then(x: Seq<char>, rest: Seq<char>) -> Seq<char> {
    json_escaped(x) + seq!['"'] + rest
}

/// A literal opened after `open` determines both the string and what
/// follows its closing quote.
proof fn lemma_quoted_then_injective(
    open: char,
    x: Seq<char>,
    rest: Seq<char>,
    x2: Seq<char>,
    rest2: Seq<char>,
)
    requires
        seq![open, '"'] + quoted_then(x, rest) == seq![open, '"'] + quoted_then(x2, rest2),
    ensures
        x == x2,
        rest == rest2,
{
    let p = seq![open, '"'];
    assert((p + quoted_then(x, rest)).skip(2) =~= quoted_then(x, rest));
    assert((p + quoted_then(x2, rest2)).skip(2) =~= quoted_then(x2, rest2));
    lemma_json_literal_reads_back(x, rest);
    lemma_json_literal_reads_back(x2, rest2);
}

/// The array of four strings as nested literals.
proof fn lemma_json_array4_nested(a: Seq<char>, b: Seq<char>, c: Seq<char>, d: Seq<char>)
    ensures
        json_array4(a, b, c, d) == seq!['[', '"'] + quoted_then(
            a,
            seq![',', '"'] + quoted_then(
                b,
                seq![',', '"'] + quoted_then(c, seq![',', '"'] + quoted_then(d, seq![']'])),
            ),
        ),
{
    assert(json_array4(a, b, c, d) =~= seq!['[', '"'] + quoted_then(
        a,
        seq![',', '"'] + quoted_then(
            b,
            seq![',', '"'] + quoted_then(c, seq![',', '"'] + quoted_then(d, seq![']'])),
        ),
    ));
}

/// The compact JSON array of four strings names each of them exactly:
/// two arrays agree only where all four strings agree.
pub proof fn lemma_json_array4_injective(
    a: Seq<char>,
    b: Seq<char>,
    c: Seq<char>,
    d: Seq<char>,
    a2: Seq<char>,
    b2: Seq<char>,
    c2: Seq<char>,
    d2: Seq<char>,
)
    requires
        json_array4(a, b, c, d) == json_array4(a2, b2, c2, d2),
    ensures
        a == a2,
        b == b2,
        c == c2,
        d == d2,
{
    lemma_json_array4_nested(a, b, c, d);
    lemma_json_array4_nested(a2, b2, c2, d2);
    let rc = seq![',', '"'] + quoted_then(d, seq![']']);
    let rc2 = seq![',', '"'] + quoted_then(d2, seq![']']);
    let rb = seq![',', '"'] + quoted_then(c, rc);
    let rb2 = seq![',', '"'] + quoted_then(c2, rc2);
    let ra = seq![',', '"'] + quoted_then(b, rb);
    let ra2 = seq![',', '"'] + quoted_then(b2, rb2);
    lemma_quoted_then_injective('[', a, ra, a2, ra2);
    lemma_quoted_then_injective(',', b, rb, b2, rb2);
    lemma_quoted_then_injective(',', c, rc, c2, rc2);
    lemma_quoted_then_injective(',', d, seq![']'], d2, seq![']']);
}

/// Two observations share operation material only when the same client
/// submitted the same source event: the material keys the operation by
/// client, source and source event id, and by nothing coarser.
pub proof fn lemma_operation_material_keys_the_identity(
    client_id: Seq<char>,
    source: Seq<char>,
    source_event_id: Seq<char>,
    other_client_id: Seq<char>,
    other_source: Seq<char>,
    other_source_event_id: Seq<char>,
)
    requires
        json_array4("observation"@, client_id, source, source_event_id) == json_array4(
            "observation"@,
            other_client_id,
            other_source,
            other_source_event_id,
        ),
    ensures
        client_id == other_client_id,
        source == other_source,
        source_event_id == other_source_event_id,
{
    lemma_json_array4_injective(
        "observation"@,
        client_id,
        source,
        source_event_id,
        "observation"@,
        other_client_id,
        other_source,
        other_source_event_id,
    );
}

} // verus!
