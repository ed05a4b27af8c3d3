use sf_logs::{FieldFilter, FilterError, JsonRecord, JsonValue, SolidFireFilter, TimeFilter};

fn record_with(date: &str, time: &str, content: &str) -> JsonRecord {
    let mut r = JsonRecord::new();
    r.insert("date".to_string(), JsonValue::Str(date.to_string()));
    r.insert("time".to_string(), JsonValue::Str(time.to_string()));
    r.insert("content".to_string(), JsonValue::Str(content.to_string()));
    r
}

#[test]
fn test_time_filter() {
    let filter = TimeFilter::new(None, None, Some("08:30"), Some("09:00")).unwrap();

    let record1 = record_with("2025-06-12", "08:35:00", "test");
    let record2 = record_with("2025-06-12", "10:00:00", "test");

    assert!(filter.matches(&record1));
    assert!(!filter.matches(&record2));
}

#[test]
fn test_date_filter() {
    let filter = TimeFilter::new(Some("2025-06-12"), Some("2025-06-12"), None, None).unwrap();

    let record1 = record_with("2025-06-12", "08:35:00", "test");
    let record2 = record_with("2025-06-13", "08:35:00", "test");

    assert!(filter.matches(&record1));
    assert!(!filter.matches(&record2));
}

#[test]
fn test_time_filter_fractional_seconds() {
    let filter = TimeFilter::new(None, None, Some("08:30"), Some("09:00")).unwrap();
    let inside = record_with("2025-06-12", "08:35:00.177183", "t");
    let outside = record_with("2025-06-12", "09:00:00.000001", "t");
    assert!(filter.matches(&inside));
    assert!(!filter.matches(&outside));
}

#[test]
fn test_malformed_date_excluded() {
    let filter = TimeFilter::new(Some("2025-06-01"), None, None, None).unwrap();
    let bad = record_with("June 12", "08:35:00", "t");
    assert!(!filter.matches(&bad));
}

#[test]
fn test_malformed_time_excluded() {
    let filter = TimeFilter::new(None, None, Some("08:30"), None).unwrap();
    // a time that parses under no accepted format excludes the record from
    // a date/time-filtered run, exactly like a malformed date
    let odd = record_with("2025-06-12", "late", "t");
    assert!(!filter.matches(&odd));
}

#[test]
fn test_invalid_start_date() {
    assert_eq!(
        TimeFilter::new(Some("12/06/2025"), None, None, None).unwrap_err(),
        FilterError::InvalidStartDate
    );
}

#[test]
fn test_invalid_end_date() {
    assert_eq!(
        TimeFilter::new(Some("2025-06-12"), Some("tomorrow"), None, None).unwrap_err(),
        FilterError::InvalidEndDate
    );
}

#[test]
fn test_invalid_start_time() {
    assert_eq!(
        TimeFilter::new(None, None, Some("8h30"), None).unwrap_err(),
        FilterError::InvalidStartTime
    );
}

#[test]
fn test_invalid_end_time() {
    assert_eq!(
        TimeFilter::new(None, None, Some("08:30"), Some("25h")).unwrap_err(),
        FilterError::InvalidEndTime
    );
}

fn field_filter(name: &str, value: &str) -> FieldFilter {
    FieldFilter {
        name: name.to_string(),
        value: value.to_string(),
        value_bits: value.parse::<f64>().ok().map(|v| v.to_bits()),
    }
}

#[test]
fn test_field_filter_number() {
    let filter =
        SolidFireFilter::new(None, None, None, None, vec![field_filter("serviceID", "230")])
            .unwrap();

    let mut matching = JsonRecord::new();
    matching.insert("serviceID".to_string(), JsonValue::Num(230.0f64.to_bits()));
    let mut other = JsonRecord::new();
    other.insert("serviceID".to_string(), JsonValue::Num(110.0f64.to_bits()));
    let mut absent = JsonRecord::new();
    absent.insert("nodeID".to_string(), JsonValue::Num(230.0f64.to_bits()));

    assert!(filter.filter_record(&matching));
    assert!(!filter.filter_record(&other));
    assert!(!filter.filter_record(&absent));
}

#[test]
fn test_field_filter_string_bool_null() {
    let filter = SolidFireFilter::new(
        None,
        None,
        None,
        None,
        vec![field_filter("state", "active")],
    )
    .unwrap();
    let mut rec = JsonRecord::new();
    rec.insert("state".to_string(), JsonValue::Str("active".to_string()));
    assert!(filter.filter_record(&rec));

    let bool_filter =
        SolidFireFilter::new(None, None, None, None, vec![field_filter("held", "false")]).unwrap();
    let mut rec2 = JsonRecord::new();
    rec2.insert("held".to_string(), JsonValue::Bool(false));
    assert!(bool_filter.filter_record(&rec2));
    let mut rec3 = JsonRecord::new();
    rec3.insert("held".to_string(), JsonValue::Bool(true));
    assert!(!bool_filter.filter_record(&rec3));

    let null_filter =
        SolidFireFilter::new(None, None, None, None, vec![field_filter("extra", "null")]).unwrap();
    let mut rec4 = JsonRecord::new();
    rec4.insert("extra".to_string(), JsonValue::Null);
    assert!(null_filter.filter_record(&rec4));
    let mut rec5 = JsonRecord::new();
    rec5.insert("extra".to_string(), JsonValue::Str("null".to_string()));
    assert!(null_filter.filter_record(&rec5));
    assert!(!null_filter.filter_record(&JsonRecord::new()));
}

#[test]
fn test_filter_records_keeps_order() {
    let filter = TimeFilter::new(None, None, Some("08:00"), Some("09:00")).unwrap();
    let combined = SolidFireFilter::new(None, None, Some("08:00"), Some("09:00"), vec![]).unwrap();
    let records = vec![
        record_with("2025-06-12", "08:10:00", "a"),
        record_with("2025-06-12", "10:00:00", "b"),
        record_with("2025-06-12", "08:20:00", "c"),
        record_with("2025-06-12", "08:59:59", "d"),
    ];
    assert!(filter.matches(&records[0]));

    let kept = combined.filter_records(&records);
    assert_eq!(kept.len(), 3);
    assert_eq!(kept[0].get("content").unwrap(), &JsonValue::Str("a".to_string()));
    assert_eq!(kept[1].get("content").unwrap(), &JsonValue::Str("c".to_string()));
    assert_eq!(kept[2].get("content").unwrap(), &JsonValue::Str("d".to_string()));
}

#[test]
fn test_no_bounds_no_time_filter() {
    let filter = SolidFireFilter::new(None, None, None, None, vec![]).unwrap();
    assert!(filter.time_filter.is_none());
    assert!(filter.filter_record(&record_with("not a date", "xx", "anything")));
}
