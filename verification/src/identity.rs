//! Canonical Fasti identifiers, the anime-grouping policy requests of the
//! identity routing routes, and the semantic digest that binds a policy
//! change to its scope, its expected revision and the change itself.

use crate::digest::{sha256, sha256_digest};
use crate::secrets::is_lower_hex;
use crate::text::{chars_of, string_from_chars};
use vstd::prelude::*;

verus! {

/// A UUIDv7 in the canonical form Fasti identifiers carry: 32 lowercase
/// hexadecimal digits, version `7` in the thirteenth, a variant of `8`,
/// `9`, `a` or `b` in the seventeenth.
pub open spec fn is_uuid_v7_hex(s: Seq<char>) -> bool {
    &&& s.len() == 32
    &&& forall|i: int| 0 <= i < 32 ==> is_lower_hex(#[trigger] s[i])
    &&& s[12] == '7'
    &&& (s[16] == '8' || s[16] == '9' || s[16] == 'a' || s[16] == 'b')
}

/// A canonical identifier: `prefix` followed by a UUIDv7.
pub open spec fn is_typed_id(s: Seq<char>, prefix: Seq<char>) -> bool {
    &&& s.len() == prefix.len() + 32
    &&& s.subrange(0, prefix.len() as int) == prefix
    &&& is_uuid_v7_hex(s.subrange(prefix.len() as int, s.len() as int))
}

fn is_lower_hex_char(c: char) -> (r: bool)
    ensures
        r == is_lower_hex(c),
{
    ('0' <= c && c <= '9') || ('a' <= c && c <= 'f')
}

/// Whether `text` is `prefix` followed by a canonical UUIDv7.
pub fn check_typed_id(text: &[char], prefix: &str) -> (r: bool)
    ensures
        r == is_typed_id(text@, prefix@),
{
    let p = chars_of(prefix);
    let n = p.len();
    let tlen = text.len();
    if tlen < n || tlen - n != 32 {
        return false;
    }
    let mut i: usize = 0;
    while i < n
        invariant
            i <= n,
            n == p@.len(),
            p@ == prefix@,
            text@.len() == n + 32,
            forall|j: int| 0 <= j < i ==> text@[j] == p@[j],
        decreases n - i,
    {
        if text[i] != p[i] {
            assert(text@.subrange(0, n as int)[i as int] != p@[i as int]);
            return false;
        }
        i = i + 1;
    }
    assert(text@.subrange(0, n as int) =~= p@);
    let ghost u = text@.subrange(n as int, text@.len() as int);
    let mut k: usize = 0;
    while k < 32
        invariant
            k <= 32,
            n == p@.len(),
            tlen == text@.len(),
            text@.len() == n + 32,
            u == text@.subrange(n as int, text@.len() as int),
            forall|j: int| 0 <= j < k ==> is_lower_hex(#[trigger] u[j]),
        decreases 32 - k,
    {
        if !is_lower_hex_char(text[n + k]) {
            assert(u[k as int] == text@[n + k]);
            return false;
        }
        k = k + 1;
    }
    assert(u[12] == text@[n + 12]);
    assert(u[16] == text@[n + 16]);
    let v = text[n + 16];
    text[n + 12] == '7' && (v == '8' || v == '9' || v == 'a' || v == 'b')
}

/// An application client identifier, `cli_` and a UUIDv7.
pub struct ClientId {
    text: String,
}

/// An operation identifier, `op_` and a UUIDv7.
pub struct OperationId {
    text: String,
}

/// A Record identifier, `rec_` and a UUIDv7.
pub struct RecordId {
    text: String,
}

impl View for ClientId {
    type V = Seq<char>;

    closed spec fn view(&self) -> Seq<char> {
        self.text@
    }
}

impl View for OperationId {
    type V = Seq<char>;

    closed spec fn view(&self) -> Seq<char> {
        self.text@
    }
}

impl View for RecordId {
    type V = Seq<char>;

    closed spec fn view(&self) -> Seq<char> {
        self.text@
    }
}

impl ClientId {
    /// Parses a canonical client identifier.
    pub fn parse(text: &str) -> (r: Option<ClientId>)
        ensures
            r.is_some() == is_typed_id(text@, "cli_"@),
            r.is_some() ==> r.unwrap()@ == text@,
    {
        let cs = chars_of(text);
        if check_typed_id(&cs, "cli_") {
            Some(ClientId { text: string_from_chars(&cs) })
        } else {
            None
        }
    }

    pub fn as_str(&self) -> (s: &str)
        ensures
            s@ == self@,
    {
        self.text.as_str()
    }
}

impl OperationId {
    /// Parses a canonical operation identifier.
    pub fn parse(text: &str) -> (r: Option<OperationId>)
        ensures
            r.is_some() == is_typed_id(text@, "op_"@),
            r.is_some() ==> r.unwrap()@ == text@,
    {
        let cs = chars_of(text);
        if check_typed_id(&cs, "op_") {
            Some(OperationId { text: string_from_chars(&cs) })
        } else {
            None
        }
    }

    pub fn as_str(&self) -> (s: &str)
        ensures
            s@ == self@,
    {
        self.text.as_str()
    }
}

impl RecordId {
    /// Parses a canonical Record identifier.
    pub fn parse(text: &str) -> (r: Option<RecordId>)
        ensures
            r.is_some() == is_typed_id(text@, "rec_"@),
            r.is_some() ==> r.unwrap()@ == text@,
    {
        let cs = chars_of(text);
        if check_typed_id(&cs, "rec_") {
            Some(RecordId { text: string_from_chars(&cs) })
        } else {
            None
        }
    }

    pub fn as_str(&self) -> (s: &str)
        ensures
            s@ == self@,
    {
        self.text.as_str()
    }
}


/// How anime releases are grouped into works.
#[derive(Clone, Copy, Debug, PartialEq, Eq, Structural)]
pub enum AnimeGroupingPreference {
    Automatic,
    GroupByTvWork,
    KeepMalReleasesSeparate,
}

impl AnimeGroupingPreference {
    pub open spec fn text(self) -> Seq<char> {
        match self {
            AnimeGroupingPreference::Automatic => "automatic"@,
            AnimeGroupingPreference::GroupByTvWork => "group_by_tv_work"@,
            AnimeGroupingPreference::KeepMalReleasesSeparate => "keep_mal_releases_separate"@,
        }
    }

    /// The wire name of the preference.
    pub fn as_str(&self) -> (s: &'static str)
        ensures
            s@ == self.text(),
    {
        match self {
            AnimeGroupingPreference::Automatic => "automatic",
            AnimeGroupingPreference::GroupByTvWork => "group_by_tv_work",
            AnimeGroupingPreference::KeepMalReleasesSeparate => "keep_mal_releases_separate",
        }
    }
}

/// The scope kind a policy request names.
#[derive(Clone, Copy, Debug, PartialEq, Eq, Structural)]
pub enum PolicyScopeKind {
    Profile,
    Client,
}

/// The scope of an anime-grouping policy: the whole profile, or one
/// application client.
pub enum PolicyScope {
    Profile,
    Client(ClientId),
}

impl View for PolicyScope {
    /// `None` for the profile, the client identifier otherwise.
    type V = Option<Seq<char>>;

    open spec fn view(&self) -> Option<Seq<char>> {
        match self {
            PolicyScope::Profile => None,
            PolicyScope::Client(id) => Some(id@),
        }
    }
}

/// A policy change as a request states it.
pub enum PolicyChangeRequest {
    SetPreference(AnimeGroupingPreference),
    InheritProfile,
    Rollback(String),
}

/// A validated policy change.
pub enum PolicyChange {
    SetPreference(AnimeGroupingPreference),
    InheritProfile,
    Rollback(OperationId),
}

/// A policy change as plain values.
pub enum PolicyChangeView {
    SetPreference(AnimeGroupingPreference),
    InheritProfile,
    Rollback(Seq<char>),
}

impl View for PolicyChange {
    type V = PolicyChangeView;

    open spec fn view(&self) -> PolicyChangeView {
        match self {
            PolicyChange::SetPreference(p) => PolicyChangeView::SetPreference(*p),
            PolicyChange::InheritProfile => PolicyChangeView::InheritProfile,
            PolicyChange::Rollback(op) => PolicyChangeView::Rollback(op@),
        }
    }
}

/// Why an identity routing request is refused before the kernel sees it.
#[derive(Clone, Copy, Debug, PartialEq, Eq, Structural)]
pub enum IdentityInputViolation {
    /// `/scope`: profile without a client, or client with one.
    ScopeMismatch,
    /// `/scope/client_id`: not a canonical `cli_` UUIDv7.
    InvalidClientId,
    /// `/change/applied_operation_id`: not a canonical `op_` UUIDv7.
    InvalidRollbackOperation,
    /// `/operation_id`: not a canonical `op_` UUIDv7.
    InvalidOperationId,
    /// `/record_id`: not a canonical `rec_` UUIDv7.
    InvalidRecordId,
    /// `/after_record_id`: not a canonical `rec_` UUIDv7.
    InvalidPreviewCursor,
    /// `/limit`: not from 1 through 100.
    InvalidPreviewLimit,
}

/// The scope a request names, or why it names none.
pub open spec fn scope_outcome(kind: PolicyScopeKind, client_id: Option<Seq<char>>) -> Result<
    Option<Seq<char>>,
    IdentityInputViolation,
> {
    match (kind, client_id) {
        (PolicyScopeKind::Profile, None) => Ok(None),
        (PolicyScopeKind::Client, Some(id)) => if is_typed_id(id, "cli_"@) {
            Ok(Some(id))
        } else {
            Err(IdentityInputViolation::InvalidClientId)
        },
        _ => Err(IdentityInputViolation::ScopeMismatch),
    }
}

pub open spec fn opt_str_view(v: Option<&str>) -> Option<Seq<char>> {
    match v {
        Some(s) => Some(s@),
        None => None,
    }
}

/// The policy scope a request names.
pub fn policy_scope(kind: PolicyScopeKind, client_id: Option<&str>) -> (r: Result<
    PolicyScope,
    IdentityInputViolation,
>)
    ensures
        match r {
            Ok(scope) => scope_outcome(kind, opt_str_view(client_id)) == Ok::<
                Option<Seq<char>>,
                IdentityInputViolation,
            >(scope@),
            Err(e) => scope_outcome(kind, opt_str_view(client_id)) == Err::<
                Option<Seq<char>>,
                IdentityInputViolation,
            >(e),
        },
{
    match (kind, client_id) {
        (PolicyScopeKind::Profile, None) => Ok(PolicyScope::Profile),
        (PolicyScopeKind::Client, Some(id)) => match ClientId::parse(id) {
            Some(client) => Ok(PolicyScope::Client(client)),
            None => Err(IdentityInputViolation::InvalidClientId),
        },
        _ => Err(IdentityInputViolation::ScopeMismatch),
    }
}

/// The change a request states, or why it is invalid.
pub open spec fn change_outcome(change: PolicyChangeRequest) -> Result<
    PolicyChangeView,
    IdentityInputViolation,
> {
    match change {
        PolicyChangeRequest::SetPreference(p) => Ok(PolicyChangeView::SetPreference(p)),
        PolicyChangeRequest::InheritProfile => Ok(PolicyChangeView::InheritProfile),
        PolicyChangeRequest::Rollback(op) => if is_typed_id(op@, "op_"@) {
            Ok(PolicyChangeView::Rollback(op@))
        } else {
            Err(IdentityInputViolation::InvalidRollbackOperation)
        },
    }
}

/// The validated form of a requested change.
pub fn policy_change(change: &PolicyChangeRequest) -> (r: Result<
    PolicyChange,
    IdentityInputViolation,
>)
    ensures
        match r {
            Ok(c) => change_outcome(*change) == Ok::<PolicyChangeView, IdentityInputViolation>(
                c@,
            ),
            Err(e) => change_outcome(*change) == Err::<PolicyChangeView, IdentityInputViolation>(
                e,
            ),
        },
{
    match change {
        PolicyChangeRequest::SetPreference(p) => Ok(PolicyChange::SetPreference(*p)),
        PolicyChangeRequest::InheritProfile => Ok(PolicyChange::InheritProfile),
        PolicyChangeRequest::Rollback(op) => match OperationId::parse(op.as_str()) {
            Some(id) => Ok(PolicyChange::Rollback(id)),
            None => Err(IdentityInputViolation::InvalidRollbackOperation),
        },
    }
}

/// One byte per character: the UTF-8 bytes of ASCII text.
pub open spec fn ascii_bytes(s: Seq<char>) -> Seq<u8> {
    Seq::new(s.len(), |i: int| s[i] as u8)
}

/// The eight bytes of `v`, most significant first.
pub open spec fn be_bytes(v: u64) -> Seq<u8> {
    seq![
        (v >> 56u64) as u8,
        (v >> 48u64) as u8,
        (v >> 40u64) as u8,
        (v >> 32u64) as u8,
        (v >> 24u64) as u8,
        (v >> 16u64) as u8,
        (v >> 8u64) as u8,
        v as u8,
    ]
}

pub open spec fn scope_bytes(scope: Option<Seq<char>>) -> Seq<u8> {
    match scope {
        None => ascii_bytes("profile\0"@),
        Some(id) => ascii_bytes("client\0"@) + ascii_bytes(id) + seq![0u8],
    }
}

pub open spec fn change_bytes(change: PolicyChangeView) -> Seq<u8> {
    match change {
        PolicyChangeView::SetPreference(p) => ascii_bytes("set\0"@) + ascii_bytes(p.text()),
        PolicyChangeView::InheritProfile => ascii_bytes("inherit_profile"@),
        PolicyChangeView::Rollback(op) => ascii_bytes("rollback\0"@) + ascii_bytes(op),
    }
}

/// The bytes the semantic digest of a policy change hashes: a versioned
/// tag, the scope, the expected revision and the change.
pub open spec fn policy_preimage(scope: Option<Seq<char>>, revision: u64, change: PolicyChangeView) -> Seq<u8> {
    ascii_bytes("fasti:anime-grouping-policy:v1\0"@) + scope_bytes(scope) + be_bytes(revision)
        + change_bytes(change)
}

fn push_ascii(out: &mut Vec<u8>, s: &str)
    ensures
        final(out)@ == old(out)@ + ascii_bytes(s@),
{
    let cs = chars_of(s);
    let mut i: usize = 0;
    while i < cs.len()
        invariant
            i <= cs@.len(),
            cs@ == s@,
            out@ == old(out)@ + ascii_bytes(s@.subrange(0, i as int)),
        decreases cs@.len() - i,
    {
        let c = cs[i];
        out.push(c as u8);
        i = i + 1;
        assert(old(out)@ + ascii_bytes(s@.subrange(0, i as int)) =~= old(out)@ + ascii_bytes(
            s@.subrange(0, i - 1),
        ) + seq![c as u8]);
    }
    assert(s@.subrange(0, i as int) =~= s@);
}

/// The semantic digest of a policy change: SHA-256 of its preimage.
pub fn policy_semantic_digest(scope: &PolicyScope, expected_revision: u64, change: &PolicyChange) -> (digest: [u8; 32])
    ensures
        digest@ == sha256_digest(policy_preimage(scope@, expected_revision, change@)),
{
    let mut data: Vec<u8> = Vec::new();
    push_ascii(&mut data, "fasti:anime-grouping-policy:v1\0");
    match scope {
        PolicyScope::Profile => push_ascii(&mut data, "profile\0"),
        PolicyScope::Client(client_id) => {
            push_ascii(&mut data, "client\0");
            push_ascii(&mut data, client_id.as_str());
            data.push(0);
        },
    }
    let r = expected_revision;
    data.push((r >> 56u64) as u8);
    data.push((r >> 48u64) as u8);
    data.push((r >> 40u64) as u8);
    data.push((r >> 32u64) as u8);
    data.push((r >> 24u64) as u8);
    data.push((r >> 16u64) as u8);
    data.push((r >> 8u64) as u8);
    data.push(r as u8);
    match change {
        PolicyChange::SetPreference(preference) => {
            push_ascii(&mut data, "set\0");
            push_ascii(&mut data, preference.as_str());
        },
        PolicyChange::InheritProfile => push_ascii(&mut data, "inherit_profile"),
        PolicyChange::Rollback(op) => {
            push_ascii(&mut data, "rollback\0");
            push_ascii(&mut data, op.as_str());
        },
    }
    assert(data@ =~= policy_preimage(scope@, expected_revision, change@));
    sha256(&data)
}


proof fn lemma_split(a: Seq<u8>, b: Seq<u8>)
    ensures
        (a + b).subrange(0, a.len() as int) == a,
        (a + b).subrange(a.len() as int, (a + b).len() as int) == b,
{
    assert((a + b).subrange(0, a.len() as int) =~= a);
    assert((a + b).subrange(a.len() as int, (a + b).len() as int) =~= b);
}

proof fn lemma_typed_id_bytes_injective(a: Seq<char>, b: Seq<char>, prefix: Seq<char>)
    requires
        is_typed_id(a, prefix),
        is_typed_id(b, prefix),
        ascii_bytes(a) == ascii_bytes(b),
    ensures
        a == b,
{
    let n = prefix.len() as int;
    assert forall|k: int| 0 <= k < a.len() implies a[k] == b[k] by {
        if k < n {
            assert(a.subrange(0, n)[k] == b.subrange(0, n)[k]);
            assert(a.subrange(0, n)[k] == a[k]);
            assert(b.subrange(0, n)[k] == b[k]);
        } else {
            let ua = a.subrange(n, a.len() as int);
            let ub = b.subrange(n, b.len() as int);
            assert(ua[k - n] == a[k]);
            assert(ub[k - n] == b[k]);
            assert(is_lower_hex(ua[k - n]));
            assert(is_lower_hex(ub[k - n]));
            assert(ascii_bytes(a)[k] == ascii_bytes(b)[k]);
            assert(ascii_bytes(a)[k] == a[k] as u8);
            assert(ascii_bytes(b)[k] == b[k] as u8);
            let x = a[k] as int;
            let y = b[k] as int;
            assert(0 <= x < 128 && 0 <= y < 128);
            assert((a[k] as u8) as int == x);
            assert((b[k] as u8) as int == y);
            assert(x == y);
        }
    }
    assert(a =~= b);
}

proof fn lemma_be_bytes_injective(a: u64, b: u64)
    requires
        be_bytes(a) == be_bytes(b),
    ensures
        a == b,
{
    assert(be_bytes(a)[0] == be_bytes(b)[0]);
    assert(be_bytes(a)[1] == be_bytes(b)[1]);
    assert(be_bytes(a)[2] == be_bytes(b)[2]);
    assert(be_bytes(a)[3] == be_bytes(b)[3]);
    assert(be_bytes(a)[4] == be_bytes(b)[4]);
    assert(be_bytes(a)[5] == be_bytes(b)[5]);
    assert(be_bytes(a)[6] == be_bytes(b)[6]);
    assert(be_bytes(a)[7] == be_bytes(b)[7]);
    assert(a == b) by (bit_vector)
        requires
            (a >> 56u64) as u8 == (b >> 56u64) as u8,
            (a >> 48u64) as u8 == (b >> 48u64) as u8,
            (a >> 40u64) as u8 == (b >> 40u64) as u8,
            (a >> 32u64) as u8 == (b >> 32u64) as u8,
            (a >> 24u64) as u8 == (b >> 24u64) as u8,
            (a >> 16u64) as u8 == (b >> 16u64) as u8,
            (a >> 8u64) as u8 == (b >> 8u64) as u8,
            a as u8 == b as u8,
    ;
}

pub open spec fn valid_scope(scope: Option<Seq<char>>) -> bool {
    match scope {
        None => true,
        Some(id) => is_typed_id(id, "cli_"@),
    }
}

pub open spec fn valid_change(change: PolicyChangeView) -> bool {
    match change {
        PolicyChangeView::Rollback(op) => is_typed_id(op, "op_"@),
        _ => true,
    }
}

proof fn lemma_scope_bytes_injective(s1: Option<Seq<char>>, s2: Option<Seq<char>>, x1: Seq<u8>, x2: Seq<u8>)
    requires
        valid_scope(s1),
        valid_scope(s2),
        scope_bytes(s1) + x1 == scope_bytes(s2) + x2,
    ensures
        s1 == s2,
        x1 == x2,
{
    reveal_strlit("profile\0");
    reveal_strlit("client\0");
    reveal_strlit("cli_");
    let y1 = scope_bytes(s1) + x1;
    let y2 = scope_bytes(s2) + x2;
    assert(y1[0] == scope_bytes(s1)[0]);
    assert(y2[0] == scope_bytes(s2)[0]);
    match (s1, s2) {
        (Some(a), Some(b)) => {
            assert(scope_bytes(s1).len() == 44);
            assert(scope_bytes(s2).len() == 44);
            assert(y1.subrange(7, 43) =~= ascii_bytes(a));
            assert(y2.subrange(7, 43) =~= ascii_bytes(b));
            lemma_typed_id_bytes_injective(a, b, "cli_"@);
            lemma_split(scope_bytes(s1), x1);
            lemma_split(scope_bytes(s2), x2);
        },
        (None, None) => {
            lemma_split(scope_bytes(s1), x1);
            lemma_split(scope_bytes(s2), x2);
        },
        _ => {},
    }
}

proof fn lemma_change_bytes_injective(c1: PolicyChangeView, c2: PolicyChangeView)
    requires
        valid_change(c1),
        valid_change(c2),
        change_bytes(c1) == change_bytes(c2),
    ensures
        c1 == c2,
{
    reveal_strlit("set\0");
    reveal_strlit("inherit_profile");
    reveal_strlit("rollback\0");
    reveal_strlit("op_");
    reveal_strlit("automatic");
    reveal_strlit("group_by_tv_work");
    reveal_strlit("keep_mal_releases_separate");
    let y1 = change_bytes(c1);
    let y2 = change_bytes(c2);
    assert(y1[0] == y2[0]);
    match (c1, c2) {
        (PolicyChangeView::Rollback(a), PolicyChangeView::Rollback(b)) => {
            assert(y1.subrange(9, 44) =~= ascii_bytes(a));
            assert(y2.subrange(9, 44) =~= ascii_bytes(b));
            lemma_typed_id_bytes_injective(a, b, "op_"@);
        },
        (PolicyChangeView::SetPreference(a), PolicyChangeView::SetPreference(b)) => {
            assert(y1.len() == y2.len());
        },
        _ => {},
    }
}

/// The semantic digest binds everything it is about: two valid policy
/// changes whose preimages agree have the same scope, the same expected
/// revision and the same change.
pub proof fn lemma_policy_preimage_injective(
    s1: Option<Seq<char>>,
    r1: u64,
    c1: PolicyChangeView,
    s2: Option<Seq<char>>,
    r2: u64,
    c2: PolicyChangeView,
)
    requires
        valid_scope(s1),
        valid_scope(s2),
        valid_change(c1),
        valid_change(c2),
        policy_preimage(s1, r1, c1) == policy_preimage(s2, r2, c2),
    ensures
        s1 == s2,
        r1 == r2,
        c1 == c2,
{
    let tag = ascii_bytes("fasti:anime-grouping-policy:v1\0"@);
    let x1 = policy_preimage(s1, r1, c1);
    let x2 = policy_preimage(s2, r2, c2);
    let rest1 = scope_bytes(s1) + (be_bytes(r1) + change_bytes(c1));
    let rest2 = scope_bytes(s2) + (be_bytes(r2) + change_bytes(c2));
    assert(x1 =~= tag + rest1);
    assert(x2 =~= tag + rest2);
    lemma_split(tag, rest1);
    lemma_split(tag, rest2);
    lemma_scope_bytes_injective(s1, s2, be_bytes(r1) + change_bytes(c1), be_bytes(r2) + change_bytes(c2));
    lemma_split(be_bytes(r1), change_bytes(c1));
    lemma_split(be_bytes(r2), change_bytes(c2));
    lemma_be_bytes_injective(r1, r2);
    lemma_change_bytes_injective(c1, c2);
}


/// A validated request to apply a policy change, with its semantic digest.
pub struct PolicyApplication {
    pub operation_id: OperationId,
    pub scope: PolicyScope,
    pub change: PolicyChange,
    pub expected_revision: u64,
    pub semantic_digest: [u8; 32],
}

/// The first thing wrong with an apply request, in the order the route
/// checks: the operation identifier, the scope, the change.
pub open spec fn apply_violation(
    operation_id: Seq<char>,
    kind: PolicyScopeKind,
    client_id: Option<Seq<char>>,
    change: PolicyChangeRequest,
) -> Option<IdentityInputViolation> {
    if !is_typed_id(operation_id, "op_"@) {
        Some(IdentityInputViolation::InvalidOperationId)
    } else {
        match scope_outcome(kind, client_id) {
            Err(e) => Some(e),
            Ok(_) => match change_outcome(change) {
                Err(e) => Some(e),
                Ok(_) => None,
            },
        }
    }
}

/// Validates a request to apply a policy change and computes the digest
/// that binds it.
pub fn apply_policy_request(
    operation_id: &str,
    kind: PolicyScopeKind,
    client_id: Option<&str>,
    change: &PolicyChangeRequest,
    expected_revision: u64,
) -> (r: Result<PolicyApplication, IdentityInputViolation>)
    ensures
        match r {
            Ok(a) => {
                &&& apply_violation(operation_id@, kind, opt_str_view(client_id), *change).is_none()
                &&& a.operation_id@ == operation_id@
                &&& scope_outcome(kind, opt_str_view(client_id)) == Ok::<
                    Option<Seq<char>>,
                    IdentityInputViolation,
                >(a.scope@)
                &&& change_outcome(*change) == Ok::<PolicyChangeView, IdentityInputViolation>(
                    a.change@,
                )
                &&& a.expected_revision == expected_revision
                &&& a.semantic_digest@ == sha256_digest(
                    policy_preimage(a.scope@, expected_revision, a.change@),
                )
            },
            Err(e) => apply_violation(operation_id@, kind, opt_str_view(client_id), *change)
                == Some(e),
        },
{
    let op = match OperationId::parse(operation_id) {
        Some(op) => op,
        None => return Err(IdentityInputViolation::InvalidOperationId),
    };
    let scope = match policy_scope(kind, client_id) {
        Ok(s) => s,
        Err(e) => return Err(e),
    };
    let validated = match policy_change(change) {
        Ok(c) => c,
        Err(e) => return Err(e),
    };
    let digest = policy_semantic_digest(&scope, expected_revision, &validated);
    Ok(
        PolicyApplication {
            operation_id: op,
            scope,
            change: validated,
            expected_revision,
            semantic_digest: digest,
        },
    )
}

/// A validated request to preview a policy change.
pub struct PolicyPreview {
    pub scope: PolicyScope,
    pub change: PolicyChange,
    pub after_record_id: Option<RecordId>,
    pub limit: u32,
}

/// The first thing wrong with a preview request, in the order the route
/// checks: the scope, the change, the cursor, the page limit.
pub open spec fn preview_violation(
    kind: PolicyScopeKind,
    client_id: Option<Seq<char>>,
    change: PolicyChangeRequest,
    after_record_id: Option<Seq<char>>,
    limit: u32,
) -> Option<IdentityInputViolation> {
    match scope_outcome(kind, client_id) {
        Err(e) => Some(e),
        Ok(_) => match change_outcome(change) {
            Err(e) => Some(e),
            Ok(_) => if after_record_id.is_some() && !is_typed_id(
                after_record_id.unwrap(),
                "rec_"@,
            ) {
                Some(IdentityInputViolation::InvalidPreviewCursor)
            } else if limit < 1 || limit > 100 {
                Some(IdentityInputViolation::InvalidPreviewLimit)
            } else {
                None
            },
        },
    }
}

pub open spec fn opt_record_view(v: Option<RecordId>) -> Option<Seq<char>> {
    match v {
        Some(r) => Some(r@),
        None => None,
    }
}

/// Validates a request to preview a policy change.
pub fn preview_policy_request(
    kind: PolicyScopeKind,
    client_id: Option<&str>,
    change: &PolicyChangeRequest,
    after_record_id: Option<&str>,
    limit: u32,
) -> (r: Result<PolicyPreview, IdentityInputViolation>)
    ensures
        match r {
            Ok(p) => {
                &&& preview_violation(
                    kind,
                    opt_str_view(client_id),
                    *change,
                    opt_str_view(after_record_id),
                    limit,
                ).is_none()
                &&& scope_outcome(kind, opt_str_view(client_id)) == Ok::<
                    Option<Seq<char>>,
                    IdentityInputViolation,
                >(p.scope@)
                &&& change_outcome(*change) == Ok::<PolicyChangeView, IdentityInputViolation>(
                    p.change@,
                )
                &&& opt_record_view(p.after_record_id) == opt_str_view(after_record_id)
                &&& p.limit == limit
            },
            Err(e) => preview_violation(
                kind,
                opt_str_view(client_id),
                *change,
                opt_str_view(after_record_id),
                limit,
            ) == Some(e),
        },
{
    let scope = match policy_scope(kind, client_id) {
        Ok(s) => s,
        Err(e) => return Err(e),
    };
    let validated = match policy_change(change) {
        Ok(c) => c,
        Err(e) => return Err(e),
    };
    let after = match after_record_id {
        Some(text) => match RecordId::parse(text) {
            Some(id) => Some(id),
            None => return Err(IdentityInputViolation::InvalidPreviewCursor),
        },
        None => None,
    };
    if limit < 1 || limit > 100 {
        return Err(IdentityInputViolation::InvalidPreviewLimit);
    }
    Ok(PolicyPreview { scope, change: validated, after_record_id: after, limit })
}

} // verus!
