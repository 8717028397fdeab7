//! The transport state of the conformance fixture: a one-time
//! initialization proof that admits exactly one first-client enrollment,
//! and bearer authentication against the credential that enrollment
//! issued.

use crate::headers::{first_text, opt_chars, secret_from_text, RequestHeaders};
use crate::secrets::{
    bearer_payload, bytes_of_hex, constant_time_eq, decode_secret, decode_secret_chars,
    encode_secret, hex_of, is_secret_hex, lemma_decode_encode_roundtrip,
    lemma_encode_decode_roundtrip, strip_bearer, InitializationProof,
};
use crate::text::has_prefix;
use vstd::prelude::*;

verus! {

/// The credential an `Authorization` list presents to the fixture: the
/// first value, after the exact `Bearer ` prefix, decoded as a secret.
pub open spec fn presented_credential(authorization: Seq<Option<Seq<char>>>) -> Option<Seq<u8>> {
    match first_text(authorization) {
        Some(value) => match bearer_payload(value) {
            Some(token) => secret_from_text(Some(token)),
            None => None,
        },
        None => None,
    }
}

/// What the fixture transport remembers between requests: the pending
/// initialization with its proof, and the enrolled client with its
/// credential. `I` and `E` are the fixture's own initialization and
/// enrollment records.
pub struct TransportState<I, E> {
    initialization: Option<I>,
    pending_proof: Option<InitializationProof>,
    enrollment: Option<E>,
    credential: Option<[u8; 32]>,
}

impl<I, E> TransportState<I, E> {
    /// A pending initialization always has its proof, and an enrollment
    /// always has its credential.
    #[verifier::type_invariant]
    spec fn paired(self) -> bool {
        &&& self.initialization.is_some() == self.pending_proof.is_some()
        &&& self.enrollment.is_some() == self.credential.is_some()
    }

    pub closed spec fn pending_initialization(&self) -> Option<I> {
        self.initialization
    }

    /// The bytes of the outstanding initialization proof.
    pub closed spec fn proof_bytes(&self) -> Option<Seq<u8>> {
        match self.pending_proof {
            Some(p) => Some(p@),
            None => None,
        }
    }

    pub closed spec fn enrolled(&self) -> Option<E> {
        self.enrollment
    }

    /// The bytes of the issued credential.
    pub closed spec fn credential_bytes(&self) -> Option<Seq<u8>> {
        match self.credential {
            Some(c) => Some(c@),
            None => None,
        }
    }

    /// Whether `presented` is the outstanding initialization proof.
    pub open spec fn admits_enrollment(&self, presented: Seq<char>) -> bool {
        &&& self.proof_bytes().is_some()
        &&& is_secret_hex(presented)
        &&& bytes_of_hex(presented) == self.proof_bytes().unwrap()
    }

    /// A transport with nothing pending and no client.
    pub fn new() -> (s: Self)
        ensures
            s.pending_initialization().is_none(),
            s.proof_bytes().is_none(),
            s.enrolled().is_none(),
            s.credential_bytes().is_none(),
    {
        TransportState { initialization: None, pending_proof: None, enrollment: None, credential: None }
    }

    /// Records a node initialization and its proof; the result is the
    /// proof's encoding, which is handed out once.
    pub fn initialize(&mut self, initialization: I, proof: InitializationProof) -> (encoded: String)
        ensures
            encoded@ == hex_of(proof@),
            final(self).pending_initialization() == Some(initialization),
            final(self).proof_bytes() == Some(proof@),
            final(self).enrolled() == old(self).enrolled(),
            final(self).credential_bytes() == old(self).credential_bytes(),
    {
        proof {
            use_type_invariant(&*self);
        }
        let encoded = encode_secret(proof.expose_for_fixture());
        let mut current = TransportState::<I, E>::new();
        std::mem::swap(&mut current, self);
        let TransportState { initialization: _, pending_proof: replaced, enrollment, credential } =
            current;
        match replaced {
            Some(mut p) => p.wipe(),
            None => {},
        }
        *self = TransportState {
            initialization: Some(initialization),
            pending_proof: Some(proof),
            enrollment,
            credential,
        };
        encoded
    }

    /// The pending initialization, when `presented` is its proof.
    pub fn enrollment_initialization(&self, presented: &str) -> (r: Option<&I>)
        ensures
            r.is_some() == self.admits_enrollment(presented@),
            r.is_some() ==> Some(*r.unwrap()) == self.pending_initialization(),
    {
        proof {
            use_type_invariant(self);
        }
        let expected = match &self.pending_proof {
            Some(p) => p.expose_for_fixture(),
            None => return None,
        };
        let presented_bytes = match decode_secret(presented) {
            Some(b) => b,
            None => return None,
        };
        if !constant_time_eq(expected, &presented_bytes) {
            return None;
        }
        self.initialization.as_ref()
    }

    /// Completes the first-client enrollment: the proof is spent and the
    /// credential recorded; the result is the credential's encoding.
    pub fn complete_enrollment(&mut self, enrollment: E, credential: [u8; 32]) -> (encoded: String)
        ensures
            encoded@ == hex_of(credential@),
            final(self).pending_initialization().is_none(),
            final(self).proof_bytes().is_none(),
            forall|t: Seq<char>| !final(self).admits_enrollment(t),
            final(self).enrolled() == Some(enrollment),
            final(self).credential_bytes() == Some(credential@),
    {
        proof {
            use_type_invariant(&*self);
        }
        let encoded = encode_secret(&credential);
        let mut current = TransportState::<I, E>::new();
        std::mem::swap(&mut current, self);
        let TransportState { initialization: _, pending_proof: spent, enrollment: _, credential: _ } =
            current;
        match spent {
            Some(mut p) => p.wipe(),
            None => {},
        }
        *self = TransportState {
            initialization: None,
            pending_proof: None,
            enrollment: Some(enrollment),
            credential: Some(credential),
        };
        encoded
    }

    /// The enrolled client, when the request's first `Authorization` value
    /// presents its credential.
    pub fn authenticate(&self, headers: &RequestHeaders) -> (r: Option<&E>)
        ensures
            r.is_some() == (self.credential_bytes().is_some() && presented_credential(
                headers.values("authorization"@),
            ) == self.credential_bytes()),
            r.is_some() ==> Some(*r.unwrap()) == self.enrolled(),
    {
        proof {
            use_type_invariant(self);
        }
        let expected = match &self.credential {
            Some(c) => c,
            None => return None,
        };
        let value = match headers.first("authorization") {
            Some(v) => v,
            None => return None,
        };
        let token = match strip_bearer(&value) {
            Some(t) => t,
            None => return None,
        };
        let presented = match decode_secret_chars(&token) {
            Some(b) => b,
            None => return None,
        };
        if !constant_time_eq(expected, &presented) {
            return None;
        }
        self.enrollment.as_ref()
    }
}

/// Exactly one `Authorization` value presents a credential: `Bearer `
/// followed by the credential's encoding as enrollment issued it.
pub proof fn lemma_issued_credential_is_the_only_presentation(credential: Seq<u8>, value: Seq<char>)
    requires
        credential.len() == 32,
    ensures
        presented_credential(seq![Some(value)]) == Some(credential) <==> value == seq![
            'B',
            'e',
            'a',
            'r',
            'e',
            'r',
            ' ',
        ] + hex_of(credential),
{
    let prefix = seq!['B', 'e', 'a', 'r', 'e', 'r', ' '];
    let issued = prefix + hex_of(credential);
    assert(first_text(seq![Some(value)]) == Some(value));
    lemma_decode_encode_roundtrip(credential);
    if value == issued {
        assert(issued.subrange(0, 7) =~= prefix);
        assert(issued.subrange(7, issued.len() as int) =~= hex_of(credential));
    }
    if presented_credential(seq![Some(value)]) == Some(credential) {
        let token = value.subrange(7, value.len() as int);
        assert(has_prefix(value, prefix));
        assert(is_secret_hex(token));
        lemma_encode_decode_roundtrip(token);
        assert(value =~= value.subrange(0, 7) + token);
    }
}


/// The replay cursor of a receipt stream request: the first
/// `Last-Event-ID` value, or a fixed marker when that value is not text,
/// so that such a cursor is refused rather than ignored.
pub open spec fn stream_cursor(values: Seq<Option<Seq<char>>>) -> Option<Seq<char>> {
    if values.len() == 0 {
        None
    } else {
        match values[0] {
            Some(v) => Some(v),
            None => Some("invalid-non-utf8-cursor"@),
        }
    }
}

/// Reads the replay cursor of a receipt stream request.
pub fn last_event_cursor(headers: &RequestHeaders) -> (r: Option<String>)
    ensures
        match r {
            Some(c) => stream_cursor(headers.values("last-event-id"@)) == Some(c@),
            None => stream_cursor(headers.values("last-event-id"@)).is_none(),
        },
{
    let values = headers.values_of("last-event-id");
    if values.len() == 0 {
        return None;
    }
    assert(opt_chars(values@[0]) == headers.values("last-event-id"@)[0]);
    match &values[0] {
        Some(v) => Some(crate::text::string_from_chars(v)),
        None => Some(crate::text::string_from_chars(&crate::text::chars_of("invalid-non-utf8-cursor"))),
    }
}

} // verus!
