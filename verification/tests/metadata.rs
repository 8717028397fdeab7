use fasti_api::metadata::{parse_field_groups, parse_overrides, MetadataInputViolation, OverrideRequest};

const RECORD: &str = "rec_0190b8a0c0de7abc8def012345678901";

fn groups(names: &[&str]) -> Vec<String> {
    names.iter().map(|n| (*n).to_owned()).collect()
}

fn clear(record: &str, field: &str) -> OverrideRequest {
    OverrideRequest { record_id: record.to_owned(), field_key: field.to_owned(), value: None }
}

fn set(record: &str, field: &str, value: &str) -> OverrideRequest {
    OverrideRequest {
        record_id: record.to_owned(),
        field_key: field.to_owned(),
        value: Some(value.to_owned()),
    }
}

#[test]
fn duplicate_refresh_groups_are_rejected_before_provider_io() {
    let result = parse_field_groups(&groups(&["basic_info", "basic_info"]), false);
    assert!(result.is_err());
}

#[test]
fn duplicate_override_targets_are_rejected_before_persistence() {
    let result = parse_overrides(&vec![
        clear(RECORD, "core.title"),
        set(RECORD, "core.title", "Replacement"),
    ]);
    assert!(result.is_err());
}

#[test]
fn field_group_bounds() {
    assert_eq!(parse_field_groups(&groups(&[]), false), Err(MetadataInputViolation::FieldGroupBounds));
    assert_eq!(parse_field_groups(&groups(&[]), true), Ok(()));
    let many: Vec<String> = (0..33).map(|i| format!("g{i}")).collect();
    assert_eq!(parse_field_groups(&many, true), Err(MetadataInputViolation::FieldGroupBounds));
    assert_eq!(
        parse_field_groups(&groups(&["a", "b", "a"]), false),
        Err(MetadataInputViolation::DuplicateFieldGroup)
    );
    assert_eq!(parse_field_groups(&groups(&["a", "b"]), false), Ok(()));
}

#[test]
fn override_violations_in_order() {
    assert!(matches!(
        parse_overrides(&vec![clear("rec_bad", "core.title")]),
        Err(MetadataInputViolation::InvalidOverrideRecord)
    ));
    assert!(matches!(
        parse_overrides(&vec![clear(RECORD, "Title")]),
        Err(MetadataInputViolation::InvalidOverrideField)
    ));
    assert!(matches!(
        parse_overrides(&vec![set(RECORD, "core.title", "")]),
        Err(MetadataInputViolation::InvalidOverrideValue)
    ));
    assert!(matches!(
        parse_overrides(&vec![set(RECORD, "core.title", "a\u{7}b")]),
        Err(MetadataInputViolation::InvalidOverrideValue)
    ));
    assert!(matches!(
        parse_overrides(&vec![set(RECORD, "core.title", &"x".repeat(4097))]),
        Err(MetadataInputViolation::InvalidOverrideValue)
    ));
    let too_many: Vec<OverrideRequest> = (0..65).map(|_| clear(RECORD, "core.title")).collect();
    assert!(matches!(parse_overrides(&too_many), Err(MetadataInputViolation::TooManyOverrides)));
    let parsed = parse_overrides(&vec![
        set(RECORD, "core.title", &"x".repeat(4096)),
        clear(RECORD, "core.summary"),
    ])
    .unwrap_or_else(|_| panic!("valid overrides"));
    assert_eq!(parsed.len(), 2);
    assert_eq!(parsed[0].record_id.as_str(), RECORD);
    assert_eq!(parsed[1].field_key, "core.summary");
    assert!(parsed[1].value.is_none());
}
