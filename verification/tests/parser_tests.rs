use sf_logs::{FieldSet, FieldValue, SolidFireParser};

#[test]
fn test_basic_log_parsing() {
    let parser = SolidFireParser::new();
    let line = "2025-06-05T00:20:07.858372Z icpbasi03037 master-1[112875]: [APP-5] [MS] 2069182 BSDirector ms/ClusterStatistics.cpp:1452:GetBlockDriveUsageFromStats| serviceID=230 usedBytes=1909106990888";

    let record = parser.parse_line(line, 1);

    assert_eq!(record.line_num, 1);
    assert_eq!(record.date, "2025-06-05");
    assert_eq!(record.hostname, Some("icpbasi03037".to_string()));
    assert_eq!(record.parse_error, None);
    assert!(record.dynamic_fields.contains_key("serviceID"));
    assert!(record.dynamic_fields.contains_key("usedBytes"));
}

#[test]
fn test_snapshot_log_parsing() {
    let parser = SolidFireParser::new();
    let line = "2025-06-12T08:35:00.177183Z icpbasi03037 master-1[112875]: [APP-5] [Vvols] 2069183 Scheduler cs/CServiceSliceSnapshots.cpp:1037:UnregisterSnapshot| snapshotID=13846639 vvolParms=<empty> overrideSnapMirrorHold=False";

    let record = parser.parse_line(line, 1);

    assert_eq!(record.line_num, 1);
    assert_eq!(record.date, "2025-06-12");
    assert_eq!(record.time, "08:35:00.177183");
    assert_eq!(record.parse_error, None);
    assert!(record.dynamic_fields.contains_key("snapshotID"));
    assert_eq!(record.dynamic_fields.get("snapshotID").unwrap(), &FieldValue::Int(13846639));
    assert!(record.dynamic_fields.contains_key("overrideSnapMirrorHold"));
    assert_eq!(
        record.dynamic_fields.get("overrideSnapMirrorHold").unwrap(),
        &FieldValue::Bool(false)
    );
}

#[test]
fn test_schema_consistency() {
    let parser = SolidFireParser::new();

    let lines = vec![
        "2025-06-05T00:20:07.858372Z icpbasi03037 master-1[112875]: [APP-5] [MS] 2069182 BSDirector ms/ClusterStatistics.cpp:1452:GetBlockDriveUsageFromStats| serviceID=230 usedBytes=1909106990888",
        "2025-06-12T08:35:00.177183Z icpbasi03037 master-1[112875]: [APP-5] [Vvols] 2069183 Scheduler cs/CServiceSliceSnapshots.cpp:1037:UnregisterSnapshot| snapshotID=13846639 vvolParms=<empty> overrideSnapMirrorHold=False",
        "2025-06-05T00:20:07.858372Z icpbasi03037 master-1[112875]: [APP-5] [MS] 2069182 BSDirector ms/ClusterStatistics.cpp:1452:GetBlockDriveUsageFromStats| volumeID=1207 nodeID=2",
    ];

    let mut all_fields = FieldSet::new();
    let mut records = Vec::new();

    for (i, line) in lines.iter().enumerate() {
        let record = parser.parse_line(line, (i + 1) as u32);
        for key in record.dynamic_fields.keys() {
            all_fields.insert(key);
        }
        records.push(record);
    }

    for record in records.iter_mut() {
        parser.ensure_complete_schema(record, &all_fields);
    }

    let first_record_field_count = records[0].dynamic_fields.len();
    for record in &records {
        assert_eq!(
            record.dynamic_fields.len(),
            first_record_field_count,
            "All records should have the same number of dynamic fields for schema consistency"
        );

        for j in 0..all_fields.count() {
            let field_name = all_fields.name_at(j);
            assert!(
                record.dynamic_fields.contains_key(field_name.as_str()),
                "Field '{}' should be present in all records",
                field_name
            );
        }
    }
}

#[test]
fn test_call_format_method_field() {
    let parser = SolidFireParser::new();
    let line = "2025-06-05T00:20:07.858372Z icpbasi03037 master-1[112875]: [APP-5] [MS] 2069182 BSDirector ms/Api.cpp:10:Handle|ScheduleSnapshot CALL: volumeID=7 retain=2";

    let record = parser.parse_line(line, 4);

    assert_eq!(record.line_num, 4);
    assert_eq!(record.parse_error, None);
    assert_eq!(
        record.dynamic_fields.get("method").unwrap(),
        &FieldValue::Str("ScheduleSnapshot".to_string())
    );
    assert_eq!(record.dynamic_fields.get("volumeID").unwrap(), &FieldValue::Int(7));
    assert_eq!(record.dynamic_fields.get("retain").unwrap(), &FieldValue::Int(2));
    assert_eq!(record.content, Some("volumeID=7 retain=2".to_string()));
}

#[test]
fn test_call_marker_last_occurrence_wins() {
    let parser = SolidFireParser::new();
    let line = "2025-06-05T00:20:07.858372Z h m[1]: [L] [C] 7 K a/b.cpp:1:F|X CALL:Y CALL: z=1";
    let record = parser.parse_line(line, 1);

    // the method part runs up to the last `CALL:` marker that follows a
    // blank, mirroring greedy matching
    assert_eq!(
        record.dynamic_fields.get("method").unwrap(),
        &FieldValue::Str("X CALL:Y".to_string())
    );
    assert_eq!(record.content, Some("z=1".to_string()));
}

#[test]
fn test_call_marker_needs_preceding_blank() {
    let parser = SolidFireParser::new();
    let line = "2025-06-05T00:20:07.858372Z h m[1]: [L] [C] 7 K a/b.cpp:1:F|XCALL: y=1";
    let record = parser.parse_line(line, 1);

    // no blank before the marker: the line is a basic-layout line
    assert!(!record.dynamic_fields.contains_key("method"));
    assert_eq!(record.content, Some("XCALL: y=1".to_string()));
    assert_eq!(record.dynamic_fields.get("y").unwrap(), &FieldValue::Int(1));
}

#[test]
fn test_timestamp_offset_normalized_to_utc() {
    let parser = SolidFireParser::new();
    let (date, time) = parser.parse_timestamp("2025-06-05T23:30:00.000000+02:00");
    assert_eq!(date, "2025-06-05");
    assert_eq!(time, "21:30:00.000000");
}

#[test]
fn test_type_coercion() {
    let parser = SolidFireParser::new();
    let pairs = parser.parse_key_value_pairs(
        "serviceID=230 overrideSnapMirrorHold=False vvolParms=<empty> usedPct=12.5 padded=007 big=9223372036854775808 params={volumeID:1} list=[1,2]",
    );

    assert_eq!(pairs.get("serviceID").unwrap(), &FieldValue::Int(230));
    assert_eq!(pairs.get("overrideSnapMirrorHold").unwrap(), &FieldValue::Bool(false));
    assert_eq!(pairs.get("vvolParms").unwrap(), &FieldValue::Str("<empty>".to_string()));
    assert_eq!(pairs.get("usedPct").unwrap(), &FieldValue::Float("12.5".to_string()));
    assert_eq!(pairs.get("padded").unwrap(), &FieldValue::Int(7));
    // one past i64::MAX: the integer parse fails, the float grammar accepts
    assert_eq!(pairs.get("big").unwrap(), &FieldValue::Float("9223372036854775808".to_string()));
    // nested values are kept opaque under a renamed key
    assert!(!pairs.contains_key("params"));
    assert_eq!(
        pairs.get("complex_params").unwrap(),
        &FieldValue::Str("{volumeID:1}".to_string())
    );
    assert!(!pairs.contains_key("list"));
    assert_eq!(pairs.get("complex_list").unwrap(), &FieldValue::Str("[1,2]".to_string()));
}

#[test]
fn test_complex_key_can_be_rebound() {
    let parser = SolidFireParser::new();
    // last key wins even across the renaming: a later explicit
    // `complex_a` binding overrides the renamed nested one
    let pairs = parser.parse_key_value_pairs("a={x} complex_a=5");
    assert_eq!(pairs.len(), 1);
    assert_eq!(pairs.get("complex_a").unwrap(), &FieldValue::Int(5));
}

#[test]
fn test_i64_boundaries() {
    let parser = SolidFireParser::new();
    let pairs = parser.parse_key_value_pairs("hi=9223372036854775807 lo=-9223372036854775808");
    assert_eq!(pairs.get("hi").unwrap(), &FieldValue::Int(9223372036854775807));
    assert_eq!(pairs.get("lo").unwrap(), &FieldValue::Int(-9223372036854775808));
}

#[test]
fn test_duplicate_key_last_wins() {
    let parser = SolidFireParser::new();
    let pairs = parser.parse_key_value_pairs("k=1 k=2");
    assert_eq!(pairs.len(), 1);
    assert_eq!(pairs.get("k").unwrap(), &FieldValue::Int(2));
}

#[test]
fn test_empty_key_and_plain_words() {
    let parser = SolidFireParser::new();
    let pairs = parser.parse_key_value_pairs("plain words =5 x=");
    // words without `=` contribute nothing; `=5` has an empty key; `x=` an
    // empty string value
    assert!(!pairs.contains_key("plain"));
    assert!(!pairs.contains_key("words"));
    assert_eq!(pairs.get("").unwrap(), &FieldValue::Int(5));
    assert_eq!(pairs.get("x").unwrap(), &FieldValue::Str("".to_string()));
}

#[test]
fn test_minimal_fallback_insufficient_parts() {
    let parser = SolidFireParser::new();
    let record = parser.parse_line("one two", 9);

    assert_eq!(record.line_num, 9);
    assert_eq!(record.parse_error, Some("insufficient parts".to_string()));
    assert_eq!(record.content, Some("one two".to_string()));
    assert_eq!(record.raw_line, "one two");
    assert_eq!(record.hostname, None);
    assert_eq!(record.process, None);
    assert_eq!(record.pid, None);
    assert_eq!(record.date, "");
    assert_eq!(record.time, "");
    assert_eq!(record.timestamp, "");
    assert_eq!(record.dynamic_fields.len(), 0);
}

#[test]
fn test_empty_and_blank_lines() {
    let parser = SolidFireParser::new();
    for line in ["", "   \t "] {
        let record = parser.parse_line(line, 1);
        assert_eq!(record.parse_error, Some("insufficient parts".to_string()));
        assert_eq!(record.content, Some(line.to_string()));
        assert_eq!(record.raw_line, line);
        assert_eq!(record.dynamic_fields.len(), 0);
    }
}

#[test]
fn test_minimal_fallback_three_tokens() {
    let parser = SolidFireParser::new();
    let record = parser.parse_line("2025-06-12T08:35:00.177183Z hostX procY extra  words", 2);

    assert_eq!(record.parse_error, Some("minimal parsing used".to_string()));
    assert_eq!(record.timestamp, "2025-06-12T08:35:00.177183Z");
    assert_eq!(record.date, "2025-06-12");
    assert_eq!(record.time, "08:35:00.177183");
    assert_eq!(record.hostname, Some("hostX".to_string()));
    assert_eq!(record.process, Some("procY".to_string()));
    // the remaining tokens are joined with single spaces
    assert_eq!(record.content, Some("extra words".to_string()));
    assert_eq!(record.pid, None);
    assert_eq!(record.dynamic_fields.len(), 0);
}

#[test]
fn test_timestamp_round_trip() {
    let parser = SolidFireParser::new();
    let (date, time) = parser.parse_timestamp("2025-06-12T08:35:00.177183Z");
    assert_eq!(date, "2025-06-12");
    assert_eq!(time, "08:35:00.177183");
}

#[test]
fn test_timestamp_unparseable() {
    let parser = SolidFireParser::new();
    let (date, time) = parser.parse_timestamp("not-a-timestamp");
    assert_eq!(date, "");
    assert_eq!(time, "");
}

#[test]
fn test_structured_pid_and_thread() {
    let parser = SolidFireParser::new();
    let line = "2025-06-05T00:20:07.858372Z icpbasi03037 master-1[112875]: [APP-5] [MS] 2069182 BSDirector ms/ClusterStatistics.cpp:1452:GetBlockDriveUsageFromStats| serviceID=230";
    let record = parser.parse_line(line, 1);

    assert_eq!(record.pid, Some(112875));
    assert_eq!(record.thread, Some(2069182));
    assert_eq!(record.level, Some("APP-5".to_string()));
    assert_eq!(record.component, Some("MS".to_string()));
    assert_eq!(record.class, Some("BSDirector".to_string()));
    assert_eq!(
        record.source,
        Some("ms/ClusterStatistics.cpp:1452:GetBlockDriveUsageFromStats".to_string())
    );
    assert_eq!(record.process, Some("master-1".to_string()));
    assert_eq!(record.timestamp, "2025-06-05T00:20:07.858372Z");
}

#[test]
fn test_process_and_source_are_trimmed() {
    let parser = SolidFireParser::new();
    let line = "2025-06-05T00:20:07.858372Z hostA  my proc [42]: [INFO] [Core] 3 Worker src/a.cpp:9:Run |   count=1";
    let record = parser.parse_line(line, 1);

    assert_eq!(record.parse_error, None);
    // the process part runs up to the `[` and the source up to the `|`;
    // both are emitted without surrounding whitespace
    assert_eq!(record.process, Some("my proc".to_string()));
    assert_eq!(record.source, Some("src/a.cpp:9:Run".to_string()));
    assert_eq!(record.pid, Some(42));
    // content starts after the pipe, with leading whitespace skipped
    assert_eq!(record.content, Some("count=1".to_string()));
    assert_eq!(record.dynamic_fields.get("count").unwrap(), &FieldValue::Int(1));
}

#[test]
fn test_blank_only_process_and_source() {
    let parser = SolidFireParser::new();
    // two blanks before `[` and before `|`: greedy matching gives one
    // back, so the process and source parts are a single blank each,
    // trimmed to empty
    let line = "2025-06-05T00:20:07.858372Z host  [42]: [L] [C] 7 K  | x=1";
    let record = parser.parse_line(line, 1);

    assert_eq!(record.parse_error, None);
    assert_eq!(record.process, Some("".to_string()));
    assert_eq!(record.source, Some("".to_string()));
    assert_eq!(record.pid, Some(42));
    assert_eq!(record.class, Some("K".to_string()));
    assert_eq!(record.dynamic_fields.get("x").unwrap(), &FieldValue::Int(1));
}

#[test]
fn test_single_blank_before_bracket_falls_back() {
    let parser = SolidFireParser::new();
    // only one blank before `[`: no character is left over for the
    // process part, so the line matches no structured layout
    let line = "2025-06-05T00:20:07.858372Z host [42]: [L] [C] 7 K s| x=1";
    let record = parser.parse_line(line, 1);

    assert_eq!(record.parse_error, Some("minimal parsing used".to_string()));
}

#[test]
fn test_unicode_whitespace_separates_tokens() {
    let parser = SolidFireParser::new();
    // U+00A0 counts as whitespace, as in `str::split_whitespace`
    let record = parser.parse_line("ts\u{a0}hostX procY", 1);

    assert_eq!(record.parse_error, Some("minimal parsing used".to_string()));
    assert_eq!(record.timestamp, "ts");
    assert_eq!(record.hostname, Some("hostX".to_string()));
    assert_eq!(record.process, Some("procY".to_string()));
}

#[test]
fn test_structured_pid_out_of_range() {
    let parser = SolidFireParser::new();
    let line = "2025-06-05T00:20:07.858372Z icpbasi03037 master-1[99999999999]: [APP-5] [MS] 2069182 BSDirector ms/C.cpp:1:F| serviceID=1";
    let record = parser.parse_line(line, 1);

    // the line still matches the structured layout; only the pid value
    // fails to fit
    assert_eq!(record.parse_error, None);
    assert_eq!(record.pid, None);
    assert_eq!(record.hostname, Some("icpbasi03037".to_string()));
}
