//! Bounds of the metadata routes checked before any provider or storage
//! work: field-group lists and override mutations.

use crate::identity::{is_typed_id, RecordId};
use crate::text::{byte_len, chars_eq, chars_of, exceeds_bytes, is_control, is_control_char};
use vstd::prelude::*;

verus! {

/// Most override mutations one configuration may carry.
pub const MAX_METADATA_OVERRIDE_MUTATIONS: usize = 64;

/// Longest override value, in bytes.
pub const MAX_FIELD_VALUE_BYTES: usize = 4096;

/// Why a metadata request is refused before any provider or storage work.
#[derive(Clone, Copy, Debug, PartialEq, Eq, Structural)]
pub enum MetadataInputViolation {
    /// `/field_groups`: 1 (or 0 where allowed) to 32 groups.
    FieldGroupBounds,
    /// `/field_groups`: a group is listed twice.
    DuplicateFieldGroup,
    /// `/overrides`: more than 64 mutations.
    TooManyOverrides,
    /// `/overrides`: a record identifier is not a canonical `rec_` UUIDv7.
    InvalidOverrideRecord,
    /// `/overrides`: a field key is not a dotted lowercase key.
    InvalidOverrideField,
    /// `/overrides`: two mutations target the same record and field.
    DuplicateOverrideTarget,
    /// `/overrides`: a value is empty, over 4096 bytes, or holds a control
    /// character.
    InvalidOverrideValue,
}

pub open spec fn strings_view(v: Seq<String>) -> Seq<Seq<char>> {
    Seq::new(v.len(), |i: int| v[i]@)
}

/// No element occurs twice.
pub open spec fn all_distinct(s: Seq<Seq<char>>) -> bool {
    forall|i: int, j: int| 0 <= i < j < s.len() ==> #[trigger] s[i] != #[trigger] s[j]
}

/// What a field-group list yields: its bounds first, then uniqueness.
pub open spec fn field_groups_violation(groups: Seq<Seq<char>>, allow_empty: bool) -> Option<
    MetadataInputViolation,
> {
    if (!allow_empty && groups.len() == 0) || groups.len() > 32 {
        Some(MetadataInputViolation::FieldGroupBounds)
    } else if !all_distinct(groups) {
        Some(MetadataInputViolation::DuplicateFieldGroup)
    } else {
        None
    }
}

/// Checks a list of field groups, named as on the wire.
pub fn parse_field_groups(groups: &Vec<String>, allow_empty: bool) -> (r: Result<
    (),
    MetadataInputViolation,
>)
    ensures
        match r {
            Ok(()) => field_groups_violation(strings_view(groups@), allow_empty).is_none(),
            Err(e) => field_groups_violation(strings_view(groups@), allow_empty) == Some(e),
        },
{
    let ghost g = strings_view(groups@);
    if (!allow_empty && groups.len() == 0) || groups.len() > 32 {
        return Err(MetadataInputViolation::FieldGroupBounds);
    }
    let mut i: usize = 0;
    while i < groups.len()
        invariant
            i <= groups@.len(),
            g == strings_view(groups@),
            !((!allow_empty && groups@.len() == 0) || groups@.len() > 32),
            forall|a: int, b: int| 0 <= a < b < i ==> #[trigger] g[a] != #[trigger] g[b],
        decreases groups@.len() - i,
    {
        let gi = chars_of(groups[i].as_str());
        let mut j: usize = 0;
        while j < i
            invariant
                j <= i < groups@.len(),
                g == strings_view(groups@),
                !((!allow_empty && groups@.len() == 0) || groups@.len() > 32),
                gi@ == g[i as int],
                forall|a: int| 0 <= a < j ==> #[trigger] g[a] != g[i as int],
            decreases i - j,
        {
            let gj = chars_of(groups[j].as_str());
            if chars_eq(&gj, &gi) {
                assert(g[j as int] == g[i as int]);
                return Err(MetadataInputViolation::DuplicateFieldGroup);
            }
            j = j + 1;
        }
        i = i + 1;
    }
    Ok(())
}

pub open spec fn is_key_char(c: char) -> bool {
    ('a' <= c && c <= 'z') || ('0' <= c && c <= '9') || c == '_'
}

/// A dotted lowercase field key such as `core.title`: lowercase
/// alphanumeric segments, joined by single dots, at least two of them.
pub open spec fn is_field_key(k: Seq<char>) -> bool {
    &&& k.len() > 0
    &&& forall|i: int| 0 <= i < k.len() ==> is_key_char(#[trigger] k[i]) || k[i] == '.'
    &&& k[0] != '.'
    &&& k[k.len() - 1] != '.'
    &&& forall|i: int| 0 <= i < k.len() - 1 ==> !(#[trigger] k[i] == '.' && k[i + 1] == '.')
    &&& exists|i: int| 0 <= i < k.len() && #[trigger] k[i] == '.'
}

fn check_field_key(k: &[char]) -> (r: bool)
    ensures
        r == is_field_key(k@),
{
    let n = k.len();
    if n == 0 || k[0] == '.' || k[n - 1] == '.' {
        return false;
    }
    let mut dotted = false;
    let mut i: usize = 0;
    while i < n
        invariant
            0 < n == k@.len(),
            i <= n,
            k@[0] != '.',
            k@[n - 1] != '.',
            forall|j: int| 0 <= j < i ==> is_key_char(#[trigger] k@[j]) || k@[j] == '.',
            forall|j: int| 0 <= j < i && j < n - 1 ==> !(#[trigger] k@[j] == '.' && k@[j + 1] == '.'),
            dotted == exists|j: int| 0 <= j < i && #[trigger] k@[j] == '.',
        decreases n - i,
    {
        let c = k[i];
        let key = ('a' <= c && c <= 'z') || ('0' <= c && c <= '9') || c == '_';
        if !key && c != '.' {
            assert(!(is_key_char(k@[i as int]) || k@[i as int] == '.'));
            return false;
        }
        if c == '.' && i + 1 < n && k[i + 1] == '.' {
            assert(k@[i as int] == '.' && k@[i + 1] == '.');
            return false;
        }
        if c == '.' {
            dotted = true;
        }
        i = i + 1;
    }
    dotted
}

/// Whether an override value is non-empty, at most 4096 bytes and free of
/// control characters.
pub open spec fn valid_override_value(v: Seq<char>) -> bool {
    v.len() > 0 && byte_len(v) <= 4096 && forall|i: int| 0 <= i < v.len() ==> !is_control(
        #[trigger] v[i],
    )
}

fn check_override_value(v: &[char]) -> (r: bool)
    ensures
        r == valid_override_value(v@),
{
    if v.len() == 0 || exceeds_bytes(v, MAX_FIELD_VALUE_BYTES) {
        return false;
    }
    let mut i: usize = 0;
    while i < v.len()
        invariant
            i <= v@.len(),
            forall|j: int| 0 <= j < i ==> !is_control(#[trigger] v@[j]),
        decreases v@.len() - i,
    {
        if is_control_char(v[i]) {
            return false;
        }
        i = i + 1;
    }
    true
}

/// One requested override: set `value`, or clear the field when `None`.
pub struct OverrideRequest {
    pub record_id: String,
    pub field_key: String,
    pub value: Option<String>,
}

/// A validated override mutation.
pub struct OverrideMutation {
    pub record_id: RecordId,
    pub field_key: String,
    pub value: Option<String>,
}

pub open spec fn request_view(r: OverrideRequest) -> (Seq<char>, Seq<char>, Option<Seq<char>>) {
    (
        r.record_id@,
        r.field_key@,
        match r.value {
            Some(v) => Some(v@),
            None => None,
        },
    )
}

pub open spec fn requests_view(v: Seq<OverrideRequest>) -> Seq<(Seq<char>, Seq<char>, Option<Seq<char>>)> {
    Seq::new(v.len(), |i: int| request_view(v[i]))
}

pub open spec fn mutation_view(m: OverrideMutation) -> (Seq<char>, Seq<char>, Option<Seq<char>>) {
    (
        m.record_id@,
        m.field_key@,
        match m.value {
            Some(v) => Some(v@),
            None => None,
        },
    )
}

pub open spec fn mutations_view(v: Seq<OverrideMutation>) -> Seq<(Seq<char>, Seq<char>, Option<Seq<char>>)> {
    Seq::new(v.len(), |i: int| mutation_view(v[i]))
}

/// The first violation among `items`, checked in order; `seen` holds the
/// targets of the mutations before them.
pub open spec fn overrides_violation(
    items: Seq<(Seq<char>, Seq<char>, Option<Seq<char>>)>,
    seen: Seq<(Seq<char>, Seq<char>)>,
) -> Option<MetadataInputViolation>
    decreases items.len(),
{
    if items.len() == 0 {
        None
    } else {
        let (record, field, value) = items[0];
        if !is_typed_id(record, "rec_"@) {
            Some(MetadataInputViolation::InvalidOverrideRecord)
        } else if !is_field_key(field) {
            Some(MetadataInputViolation::InvalidOverrideField)
        } else if seen.contains((record, field)) {
            Some(MetadataInputViolation::DuplicateOverrideTarget)
        } else if value.is_some() && !valid_override_value(value.unwrap()) {
            Some(MetadataInputViolation::InvalidOverrideValue)
        } else {
            overrides_violation(items.drop_first(), seen.push((record, field)))
        }
    }
}

/// What an override list yields: its length bound, then each mutation.
pub open spec fn overrides_outcome(items: Seq<(Seq<char>, Seq<char>, Option<Seq<char>>)>) -> Option<
    MetadataInputViolation,
> {
    if items.len() > 64 {
        Some(MetadataInputViolation::TooManyOverrides)
    } else {
        overrides_violation(items, seq![])
    }
}

fn target_seen(seen: &Vec<(Vec<char>, Vec<char>)>, record: &[char], field: &[char]) -> (r: bool)
    ensures
        r == Seq::new(seen@.len(), |i: int| (seen@[i].0@, seen@[i].1@)).contains((record@, field@)),
{
    let ghost sv = Seq::new(seen@.len(), |i: int| (seen@[i].0@, seen@[i].1@));
    let mut i: usize = 0;
    while i < seen.len()
        invariant
            i <= seen@.len(),
            sv == Seq::new(seen@.len(), |i: int| (seen@[i].0@, seen@[i].1@)),
            forall|j: int| 0 <= j < i ==> #[trigger] sv[j] != (record@, field@),
        decreases seen@.len() - i,
    {
        if chars_eq(&seen[i].0, record) && chars_eq(&seen[i].1, field) {
            assert(sv[i as int] == (record@, field@));
            return true;
        }
        i = i + 1;
    }
    false
}

/// Checks and converts override mutations.
pub fn parse_overrides(values: &Vec<OverrideRequest>) -> (r: Result<
    Vec<OverrideMutation>,
    MetadataInputViolation,
>)
    ensures
        match r {
            Ok(m) => overrides_outcome(requests_view(values@)).is_none() && mutations_view(m@)
                == requests_view(values@),
            Err(e) => overrides_outcome(requests_view(values@)) == Some(e),
        },
{
    if values.len() > MAX_METADATA_OVERRIDE_MUTATIONS {
        return Err(MetadataInputViolation::TooManyOverrides);
    }
    let ghost items = requests_view(values@);
    let mut seen: Vec<(Vec<char>, Vec<char>)> = Vec::new();
    let mut parsed: Vec<OverrideMutation> = Vec::new();
    let mut i: usize = 0;
    assert(items.subrange(0, items.len() as int) =~= items);
    assert(Seq::new(seen@.len(), |k: int| (seen@[k].0@, seen@[k].1@)) =~= seq![]);
    while i < values.len()
        invariant
            i <= values@.len(),
            values@.len() <= 64,
            items == requests_view(values@),
            overrides_violation(items, seq![]) == overrides_violation(
                items.subrange(i as int, items.len() as int),
                Seq::new(seen@.len(), |k: int| (seen@[k].0@, seen@[k].1@)),
            ),
            mutations_view(parsed@) == items.subrange(0, i as int),
        decreases values@.len() - i,
    {
        let ghost rest = items.subrange(i as int, items.len() as int);
        let ghost sv = Seq::new(seen@.len(), |k: int| (seen@[k].0@, seen@[k].1@));
        assert(rest[0] == items[i as int]);
        assert(rest.drop_first() =~= items.subrange(i + 1, items.len() as int));
        let item = &values[i];
        let record = match RecordId::parse(item.record_id.as_str()) {
            Some(r) => r,
            None => return Err(MetadataInputViolation::InvalidOverrideRecord),
        };
        let rc = chars_of(item.record_id.as_str());
        let fc = chars_of(item.field_key.as_str());
        if !check_field_key(&fc) {
            return Err(MetadataInputViolation::InvalidOverrideField);
        }
        if target_seen(&seen, &rc, &fc) {
            return Err(MetadataInputViolation::DuplicateOverrideTarget);
        }
        match &item.value {
            Some(v) => {
                let vc = chars_of(v.as_str());
                if !check_override_value(&vc) {
                    return Err(MetadataInputViolation::InvalidOverrideValue);
                }
            },
            None => {},
        }
        seen.push((rc, fc));
        assert(Seq::new(seen@.len(), |k: int| (seen@[k].0@, seen@[k].1@)) =~= sv.push(
            (item.record_id@, item.field_key@),
        ));
        let ghost before = mutations_view(parsed@);
        parsed.push(
            OverrideMutation {
                record_id: record,
                field_key: item.field_key.clone(),
                value: match &item.value {
                    Some(v) => Some(v.clone()),
                    None => None,
                },
            },
        );
        assert(mutations_view(parsed@) =~= before.push(items[i as int]));
        assert(items.subrange(0, i + 1) =~= items.subrange(0, i as int).push(items[i as int]));
        i = i + 1;
    }
    assert(items.subrange(i as int, items.len() as int).len() == 0);
    assert(items.subrange(0, i as int) =~= items);
    Ok(parsed)
}


/// A field-group list that names a group twice is refused.
pub proof fn lemma_duplicate_field_groups_rejected(groups: Seq<Seq<char>>, allow_empty: bool, i: int, j: int)
    requires
        0 <= i < j < groups.len(),
        groups[i] == groups[j],
    ensures
        field_groups_violation(groups, allow_empty).is_some(),
{
}

proof fn lemma_repeated_target(
    items: Seq<(Seq<char>, Seq<char>, Option<Seq<char>>)>,
    seen: Seq<(Seq<char>, Seq<char>)>,
)
    requires
        (exists|i: int, j: int|
            0 <= i < j < items.len() && #[trigger] items[i].0 == #[trigger] items[j].0 && items[i].1
                == items[j].1) || (exists|j: int|
            0 <= j < items.len() && seen.contains((#[trigger] items[j].0, items[j].1))),
    ensures
        overrides_violation(items, seen).is_some(),
    decreases items.len(),
{
    if items.len() == 0 {
        return;
    }
    let (record, field, value) = items[0];
    if !is_typed_id(record, "rec_"@) || !is_field_key(field) || seen.contains((record, field)) || (
    value.is_some() && !valid_override_value(value.unwrap())) {
        return;
    }
    let rest = items.drop_first();
    let seen2 = seen.push((record, field));
    if exists|i: int, j: int|
        0 <= i < j < items.len() && #[trigger] items[i].0 == #[trigger] items[j].0 && items[i].1
            == items[j].1 {
        let (i, j) = choose|i: int, j: int|
            0 <= i < j < items.len() && #[trigger] items[i].0 == #[trigger] items[j].0 && items[i].1
                == items[j].1;
        if i == 0 {
            assert(rest[j - 1] == items[j]);
            assert(seen2[seen.len() as int] == (record, field));
            assert(seen2.contains((rest[j - 1].0, rest[j - 1].1)));
        } else {
            assert(rest[i - 1] == items[i]);
            assert(rest[j - 1] == items[j]);
        }
    } else {
        let j = choose|j: int| 0 <= j < items.len() && seen.contains((#[trigger] items[j].0, items[j].1));
        assert(j != 0);
        assert(rest[j - 1] == items[j]);
        let k = choose|k: int| 0 <= k < seen.len() && seen[k] == (items[j].0, items[j].1);
        assert(seen2[k] == seen[k]);
        assert(seen2.contains((rest[j - 1].0, rest[j - 1].1)));
    }
    lemma_repeated_target(rest, seen2);
}

/// An override list in which two mutations target the same record and
/// field is refused.
pub proof fn lemma_duplicate_override_targets_rejected(
    items: Seq<(Seq<char>, Seq<char>, Option<Seq<char>>)>,
    i: int,
    j: int,
)
    requires
        0 <= i < j < items.len(),
        items[i].0 == items[j].0,
        items[i].1 == items[j].1,
    ensures
        overrides_outcome(items).is_some(),
{
    if items.len() <= 64 {
        lemma_repeated_target(items, seq![]);
    }
}

} // verus!
