//! The slice of `multipart/form-data` that the Plex webhook needs: the
//! boundary parameter of the content type, byte search, and the content of
//! the part named `payload`.

use crate::text::{
    chars_eq_ignore_ascii_case, chars_of, eq_ignore_ascii_case, find_chars_from, find_from,
    lemma_find_from_bounds, segments, split_chars, split_once, split_once_chars,
    string_from_chars, trim, trim_chars, trim_matches, trim_matches_chars,
};
use vstd::prelude::*;
use vstd::slice::slice_subrange;
use vstd::utf8::{decode_utf8, encode_utf8, valid_utf8};

verus! {

/// Longest boundary, in bytes, that the Plex adapter accepts.
pub const MAX_MULTIPART_BOUNDARY_BYTES: usize = 200;

/// The boundary a `;`-separated content-type parameter names, when it is
/// `boundary=...`: the value trimmed and stripped of surrounding quotes.
pub open spec fn boundary_param(part: Seq<char>) -> Option<Seq<char>> {
    match split_once(trim(part), '=') {
        Some((name, value)) => if eq_ignore_ascii_case(name, "boundary"@) {
            Some(trim_matches(trim(value), '"'))
        } else {
            None
        },
        None => None,
    }
}

/// The first parameter among `params` that names a boundary.
pub open spec fn first_boundary(params: Seq<Seq<char>>) -> Option<Seq<char>>
    decreases params.len(),
{
    if params.len() == 0 {
        None
    } else {
        match boundary_param(params[0]) {
            Some(b) => Some(b),
            None => first_boundary(params.drop_first()),
        }
    }
}

/// The boundary of a `multipart/form-data` content type: the first
/// parameter after the media type that names one.
pub open spec fn boundary_of(content_type: Seq<char>) -> Option<Seq<char>> {
    first_boundary(segments(content_type, ';').drop_first())
}

fn boundary_param_chars(part: &[char]) -> (r: Option<Vec<char>>)
    ensures
        match r {
            Some(b) => boundary_param(part@) == Some(b@),
            None => boundary_param(part@).is_none(),
        },
{
    let t = trim_chars(part);
    match split_once_chars(&t, '=') {
        Some((name, value)) => {
            let wanted = chars_of("boundary");
            if chars_eq_ignore_ascii_case(&name, &wanted) {
                let v = trim_chars(&value);
                Some(trim_matches_chars(&v, '"'))
            } else {
                None
            }
        },
        None => None,
    }
}

/// The boundary parameter of a multipart content type.
pub fn multipart_boundary(content_type: &str) -> (r: Option<String>)
    ensures
        match r {
            Some(b) => boundary_of(content_type@) == Some(b@),
            None => boundary_of(content_type@).is_none(),
        },
{
    let text = chars_of(content_type);
    let parts = split_chars(&text, ';');
    let ghost segs = segments(content_type@, ';');
    let mut i: usize = 1;
    assert(segs.drop_first() =~= segs.subrange(1, segs.len() as int));
    while i < parts.len()
        invariant
            1 <= i <= parts@.len(),
            parts@.len() == segs.len(),
            forall|k: int| 0 <= k < parts@.len() ==> #[trigger] parts@[k]@ == segs[k],
            boundary_of(content_type@) == first_boundary(segs.subrange(i as int, segs.len() as int)),
        decreases parts@.len() - i,
    {
        let ghost rest = segs.subrange(i as int, segs.len() as int);
        assert(rest[0] == segs[i as int]);
        assert(rest.drop_first() =~= segs.subrange(i + 1, segs.len() as int));
        match boundary_param_chars(&parts[i]) {
            Some(b) => {
                return Some(string_from_chars(&b));
            },
            None => {},
        }
        i = i + 1;
    }
    None
}

/// `find_bytes`: the first occurrence of a non-empty `needle` at or after
/// `start`.
pub open spec fn find_bytes_spec(haystack: Seq<u8>, needle: Seq<u8>, start: int) -> Option<int> {
    if needle.len() == 0 || start > haystack.len() {
        None
    } else {
        find_from(haystack, needle, start)
    }
}

/// The first position at or after `start` where `needle` occurs; `None`
/// for an empty needle or a start past the end.
pub fn find_bytes(haystack: &[u8], needle: &[u8], start: usize) -> (r: Option<usize>)
    ensures
        match r {
            Some(i) => find_bytes_spec(haystack@, needle@, start as int) == Some(i as int),
            None => find_bytes_spec(haystack@, needle@, start as int).is_none(),
        },
{
    let n = haystack.len();
    let m = needle.len();
    if m == 0 || start > n {
        return None;
    }
    if m > n || start > n - m {
        return None;
    }
    let mut i: usize = start;
    while i <= n - m
        invariant
            0 < m <= n,
            n == haystack@.len(),
            m == needle@.len(),
            start <= i <= n - m + 1,
            find_from(haystack@, needle@, start as int) == find_from(haystack@, needle@, i as int),
        decreases n - m + 1 - i,
    {
        let mut k: usize = 0;
        let mut same = true;
        while k < m
            invariant
                k <= m,
                m == needle@.len(),
                n == haystack@.len(),
                i + m <= n,
                same == (forall|j: int| 0 <= j < k ==> haystack@[i + j] == needle@[j]),
            decreases m - k,
        {
            if haystack[i + k] != needle[k] {
                same = false;
            }
            k = k + 1;
        }
        if same {
            assert(haystack@.subrange(i as int, i + m) =~= needle@);
            return Some(i);
        }
        assert(haystack@.subrange(i as int, i + m) != needle@) by {
            let j = choose|j: int| 0 <= j < m && haystack@[i + j] != needle@[j];
            assert(haystack@.subrange(i as int, i + m)[j] == haystack@[i + j]);
        }
        assert(find_from(haystack@, needle@, i as int) == find_from(haystack@, needle@, i + 1));
        if i == n - m {
            assert(find_from(haystack@, needle@, i + 1).is_none());
            return None;
        }
        i = i + 1;
    }
    None
}

/// The blank line that ends the headers of a part.
pub open spec fn header_end() -> Seq<u8> {
    seq![13u8, 10u8, 13u8, 10u8]
}

/// Whether the headers of a part, read as UTF-8, name the form field
/// `payload`. Headers that are not UTF-8 name nothing.
pub open spec fn names_payload(headers: Seq<u8>) -> bool {
    valid_utf8(headers) && (find_from(decode_utf8(headers), "name=\"payload\""@, 0).is_some()
        || find_from(decode_utf8(headers), "name=payload"@, 0).is_some())
}

/// `content` without its trailing CRLF pairs.
pub open spec fn strip_crlf(content: Seq<u8>) -> Seq<u8>
    decreases content.len(),
{
    if content.len() >= 2 && content[content.len() - 2] == 13u8 && content[content.len() - 1]
        == 10u8 {
        strip_crlf(content.subrange(0, content.len() - 2))
    } else {
        content
    }
}

/// The content of `part` when its headers name `payload`.
pub open spec fn payload_of_part(part: Seq<u8>) -> Option<Seq<u8>> {
    match find_from(part, header_end(), 0) {
        Some(he) => if names_payload(part.subrange(0, he)) {
            Some(strip_crlf(part.subrange(he + 4, part.len() as int)))
        } else {
            None
        },
        None => None,
    }
}

/// The parts from the first `marker` at or after `cursor` on, each ending
/// at the next marker or the end of the body; the first that carries the
/// payload gives it.
pub open spec fn scan_parts(body: Seq<u8>, marker: Seq<u8>, cursor: int) -> Option<Seq<u8>>
    decreases body.len() - cursor,
{
    if marker.len() == 0 || cursor < 0 {
        None
    } else {
        match find_from(body, marker, cursor) {
            None => None,
            Some(ms) => {
                let part_start = ms + marker.len();
                let next = match find_from(body, marker, part_start) {
                    Some(n) => n,
                    None => body.len() as int,
                };
                let payload = payload_of_part(body.subrange(part_start, next));
                if payload.is_some() {
                    payload
                } else if next >= body.len() {
                    None
                } else {
                    proof {
                        lemma_find_from_bounds(body, marker, cursor);
                        lemma_find_from_bounds(body, marker, part_start);
                    }
                    scan_parts(body, marker, next)
                }
            },
        }
    }
}

/// The payload part of a Plex multipart body whose boundary has the bytes
/// `boundary`: none for an empty or over-long boundary.
pub open spec fn plex_payload_of(body: Seq<u8>, boundary: Seq<u8>) -> Option<Seq<u8>> {
    if boundary.len() == 0 || boundary.len() > MAX_MULTIPART_BOUNDARY_BYTES {
        None
    } else {
        scan_parts(body, seq![45u8, 45u8] + boundary, 0)
    }
}

/// `std::str::from_utf8`: the text `bytes` encode, when they are valid
/// UTF-8.
#[verifier::external_body]
pub fn utf8_text(bytes: &[u8]) -> (r: Option<String>)
    ensures
        r.is_some() == valid_utf8(bytes@),
        r.is_some() ==> r.unwrap()@ == decode_utf8(bytes@),
{
    match std::str::from_utf8(bytes) {
        Ok(text) => Some(text.to_owned()),
        Err(_) => None,
    }
}

fn headers_name_payload(headers: &[u8]) -> (r: bool)
    ensures
        r == names_payload(headers@),
{
    match utf8_text(headers) {
        Some(text) => {
            let t = chars_of(text.as_str());
            let quoted = chars_of("name=\"payload\"");
            let bare = chars_of("name=payload");
            find_chars_from(&t, &quoted, 0).is_some() || find_chars_from(&t, &bare, 0).is_some()
        },
        None => false,
    }
}

fn part_payload<'a>(part: &'a [u8]) -> (r: Option<&'a [u8]>)
    ensures
        match r {
            Some(p) => payload_of_part(part@) == Some(p@),
            None => payload_of_part(part@).is_none(),
        },
{
    let mut separator: Vec<u8> = Vec::new();
    separator.push(13);
    separator.push(10);
    separator.push(13);
    separator.push(10);
    assert(separator@ =~= header_end());
    let plen = part.len();
    match find_bytes(part, &separator, 0) {
        None => None,
        Some(he) => {
            proof {
                lemma_find_from_bounds(part@, header_end(), 0);
            }
            let headers = slice_subrange(part, 0, he);
            if !headers_name_payload(headers) {
                return None;
            }
            assert(he + 4 <= plen);
            let start = he + 4;
            let mut end: usize = plen;
            assert(part@.subrange(start as int, end as int) =~= part@.subrange(
                he + 4,
                part@.len() as int,
            ));
            while end - start >= 2 && part[end - 2] == 13 && part[end - 1] == 10
                invariant
                    start <= end <= part@.len(),
                    strip_crlf(part@.subrange(he + 4, part@.len() as int)) == strip_crlf(
                        part@.subrange(start as int, end as int),
                    ),
                decreases end,
            {
                let ghost c = part@.subrange(start as int, end as int);
                assert(c[c.len() - 2] == part@[end - 2]);
                assert(c.subrange(0, c.len() - 2) =~= part@.subrange(start as int, end - 2));
                end = end - 2;
            }
            proof {
                let c = part@.subrange(start as int, end as int);
                if c.len() >= 2 {
                    assert(c[c.len() - 2] == part@[end - 2]);
                    assert(c[c.len() - 1] == part@[end - 1]);
                }
            }
            Some(slice_subrange(part, start, end))
        },
    }
}

/// The content of the part named `payload` in a multipart body, without
/// its trailing line breaks.
pub fn plex_payload_part<'a>(body: &'a [u8], boundary: &str) -> (r: Option<&'a [u8]>)
    ensures
        match r {
            Some(p) => plex_payload_of(body@, encode_utf8(boundary@)) == Some(p@),
            None => plex_payload_of(body@, encode_utf8(boundary@)).is_none(),
        },
{
    let b = boundary.as_bytes();
    if b.len() == 0 || b.len() > MAX_MULTIPART_BOUNDARY_BYTES {
        return None;
    }
    let mut marker: Vec<u8> = Vec::new();
    marker.push(45);
    marker.push(45);
    let mut k: usize = 0;
    while k < b.len()
        invariant
            k <= b@.len(),
            marker@ == seq![45u8, 45u8] + b@.subrange(0, k as int),
        decreases b@.len() - k,
    {
        marker.push(b[k]);
        k = k + 1;
        assert(marker@ =~= seq![45u8, 45u8] + b@.subrange(0, k as int));
    }
    assert(b@.subrange(0, b@.len() as int) =~= b@);
    let ghost mk = marker@;
    let blen = body.len();
    let mut cursor: usize = 0;
    loop
        invariant
            blen == body@.len(),
            cursor <= body@.len(),
            marker@ == mk,
            mk.len() > 0,
            plex_payload_of(body@, encode_utf8(boundary@)) == scan_parts(body@, mk, cursor as int),
        decreases body@.len() - cursor,
    {
        let found = find_bytes(body, &marker, cursor);
        let marker_start = match found {
            None => return None,
            Some(ms) => ms,
        };
        proof {
            lemma_find_from_bounds(body@, mk, cursor as int);
        }
        assert(marker_start + marker@.len() <= blen);
        let part_start = marker_start + marker.len();
        let next = match find_bytes(body, &marker, part_start) {
            Some(n) => n,
            None => body.len(),
        };
        proof {
            lemma_find_from_bounds(body@, mk, part_start as int);
        }
        let part = slice_subrange(body, part_start, next);
        match part_payload(part) {
            Some(p) => return Some(p),
            None => {},
        }
        if next >= body.len() {
            return None;
        }
        cursor = next;
    }
}

} // verus!
