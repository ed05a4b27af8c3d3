use sf_logs::{FieldValue, SolidFireParser};

fn sample_lines() -> Vec<String> {
    vec![
        "2025-06-05T00:20:07.858372Z icpbasi03037 master-1[112875]: [APP-5] [MS] 2069182 BSDirector ms/ClusterStatistics.cpp:1452:GetBlockDriveUsageFromStats| serviceID=230 usedBytes=1909106990888".to_string(),
        "2025-06-12T08:35:00.177183Z icpbasi03037 master-1[112875]: [APP-5] [Vvols] 2069183 Scheduler cs/CServiceSliceSnapshots.cpp:1037:UnregisterSnapshot| snapshotID=13846639 vvolParms=<empty> overrideSnapMirrorHold=False".to_string(),
        "garbage".to_string(),
        "2025-06-05T00:20:07.858372Z icpbasi03037 master-1[112875]: [APP-5] [MS] 2069182 BSDirector ms/ClusterStatistics.cpp:1452:GetBlockDriveUsageFromStats| volumeID=1207 nodeID=2".to_string(),
    ]
}

#[test]
fn test_line_count_and_order() {
    let parser = SolidFireParser::new();
    let lines = sample_lines();
    let records = parser.parse_lines(&lines, 1000);

    assert_eq!(records.len(), lines.len());
    for (i, record) in records.iter().enumerate() {
        assert_eq!(record.line_num, (i + 1) as u32);
        assert_eq!(record.raw_line, lines[i]);
    }
}

#[test]
fn test_chunk_size_immaterial() {
    let parser = SolidFireParser::new();
    let lines = sample_lines();
    let whole = parser.parse_lines(&lines, 1000);

    for chunk_size in [1usize, 2, 3, 7] {
        let chunked = parser.parse_lines(&lines, chunk_size);
        assert_eq!(chunked.len(), whole.len());
        for (a, b) in whole.iter().zip(chunked.iter()) {
            assert_eq!(a.line_num, b.line_num);
            assert_eq!(a.raw_line, b.raw_line);
            assert_eq!(a.content, b.content);
            assert_eq!(a.date, b.date);
            assert_eq!(a.time, b.time);
            assert_eq!(a.dynamic_fields.len(), b.dynamic_fields.len());
            for key in a.dynamic_fields.keys() {
                assert_eq!(a.dynamic_fields.get(&key), b.dynamic_fields.get(&key));
            }
        }
    }
}

#[test]
fn test_run_schema_uniform() {
    let parser = SolidFireParser::new();
    let lines = sample_lines();
    let records = parser.parse_lines(&lines, 2);

    let first_keys = {
        let mut ks = records[0].dynamic_fields.keys();
        ks.sort();
        ks
    };
    assert!(first_keys.contains(&"serviceID".to_string()));
    assert!(first_keys.contains(&"snapshotID".to_string()));
    assert!(first_keys.contains(&"nodeID".to_string()));
    for record in &records {
        let mut ks = record.dynamic_fields.keys();
        ks.sort();
        assert_eq!(ks, first_keys, "every record of one run exposes the same key set");
    }
    // a missing field is padded with an explicit null
    assert_eq!(records[0].dynamic_fields.get("snapshotID").unwrap(), &FieldValue::Null);
    assert_eq!(records[1].dynamic_fields.get("snapshotID").unwrap(), &FieldValue::Int(13846639));
}

#[test]
fn test_schema_sampling_is_bounded() {
    let parser = SolidFireParser::new();
    let mut lines: Vec<String> = Vec::new();
    for i in 0..1000 {
        lines.push(format!(
            "2025-06-05T00:20:07.858372Z host p[1]: [L] [C] 7 K a/b.cpp:1:F| early={}",
            i
        ));
    }
    lines.push(
        "2025-06-05T00:20:07.858372Z host p[1]: [L] [C] 7 K a/b.cpp:1:F| late=1".to_string(),
    );

    let records = parser.parse_lines(&lines, 256);
    assert_eq!(records.len(), 1001);
    // `early` was sampled, so every record carries it, padded with null
    // where the line itself had no such pair
    assert_eq!(records[5].dynamic_fields.get("early").unwrap(), &FieldValue::Int(5));
    assert!(records[1000].dynamic_fields.contains_key("early"));
    assert_eq!(records[1000].dynamic_fields.get("early").unwrap(), &FieldValue::Null);
    // `late` first appears after the sampled prefix: it stays off every
    // other record, an accepted limitation of bounded discovery
    assert!(records[1000].dynamic_fields.contains_key("late"));
    assert!(!records[0].dynamic_fields.contains_key("late"));
}

#[test]
fn test_discover_schema_skips_nested_and_pipeless() {
    let parser = SolidFireParser::new();
    let lines = vec![
        "no pipe here key=1".to_string(),
        "head| a=1 b={x} c=[y] d".to_string(),
    ];
    let fs = parser.discover_schema(&lines);
    assert!(fs.contains("a"));
    assert!(!fs.contains("b"));
    assert!(!fs.contains("c"));
    assert!(!fs.contains("d"));
    assert!(!fs.contains("key"));
    assert_eq!(fs.count(), 1);
}

#[test]
fn test_extract_dynamic_field_names() {
    let parser = SolidFireParser::new();
    let fs = parser.extract_dynamic_field_names("x|serviceID=1 raw usedBytes=2");
    assert!(fs.contains("serviceID"));
    assert!(fs.contains("usedBytes"));
    assert!(!fs.contains("raw"));
    assert_eq!(fs.count(), 2);
}
