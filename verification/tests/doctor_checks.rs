use govbot::doctor::{
    coverage_check, dataset_report, doctor_passed, doctor_text_lines, DatasetReport, DoctorCheck, id_distinctness_check, metadata_check,
    metadata_fields_verdict, metadata_file_check, metadata_path, routed_dataset, summarize_dataset, text_check,
    unrouted_ids, DocRecord,
};
use govbot::json::Json;

fn rec(id: &str, text_len: usize) -> DocRecord {
    DocRecord { id: id.to_string(), text_len }
}

fn obj(pairs: Vec<(&str, Json)>) -> Json {
    Json::Object(pairs.into_iter().map(|(k, v)| (k.to_string(), v)).collect())
}

#[test]
fn records_route_to_their_dataset_short_name() {
    assert_eq!(
        routed_dataset("nj-legislation/country:us/state:nj/sessions/2025/bills/A1", "-legislation").as_deref(),
        Some("nj")
    );
    assert_eq!(
        routed_dataset("wy-data-pipeline/country:us/state:wy/sessions/2025/bills/HB1", "-legislation").as_deref(),
        Some("wy")
    );
    assert_eq!(routed_dataset("country:us/state:wy/sessions/2025/bills/HB1", "-legislation"), None);
    assert_eq!(routed_dataset("", "-legislation"), None);
}

#[test]
fn summary_counts_distinct_ids_and_samples() {
    let records = vec![
        rec("nj-legislation/country:us/state:nj/sessions/2025/bills/A1", 100),
        rec("nj-legislation/country:us/state:nj/sessions/2025/bills/A1", 120),
        rec("wy-legislation/country:us/state:wy/sessions/2025/bills/HB1", 80),
        rec("nj-legislation/country:us/state:nj/sessions/2025/bills/A2", 10),
        rec("not-a-bill", 5),
    ];
    let s = summarize_dataset("nj", &records, "-legislation", 2);
    assert_eq!(s.record_count, 3);
    assert_eq!(s.distinct_ids.len(), 2);
    assert_eq!(s.samples.len(), 2);
    assert_eq!(s.samples[1].text_len, 120);
    assert_eq!(unrouted_ids(&records, "-legislation"), vec!["not-a-bill".to_string()]);
}

#[test]
fn coverage_warns_but_passes_on_empty_datasets() {
    let c = coverage_check("wy-legislation", 0);
    assert!(c.passed && c.warned);
    assert!(c.detail[0].starts_with("wy-legislation is linked but produced 0 records"));
    let c = coverage_check("wy-legislation", 3);
    assert!(c.passed && !c.warned && c.detail.is_empty());
}

#[test]
fn distinctness_floor_is_three_percent() {
    assert!(id_distinctness_check(3, 100, "d").passed);
    assert!(!id_distinctness_check(2, 100, "d").passed);
    assert_eq!(id_distinctness_check(97, 4916, "collapsed").detail, vec!["collapsed".to_string()]);
    assert!(id_distinctness_check(0, 0, "d").passed);
}

#[test]
fn text_check_reports_short_samples() {
    let samples = vec![rec("a", 10), rec("b", 60), rec("c", 49)];
    let c = text_check(&samples);
    assert!(!c.passed);
    assert_eq!(
        c.detail,
        vec!["a :: text length 10 < 50".to_string(), "c :: text length 49 < 50".to_string()]
    );
    let many: Vec<DocRecord> = (0..8).map(|i| rec(&format!("r{}", i), 0)).collect();
    assert_eq!(text_check(&many).detail.len(), 5);
}

#[test]
fn metadata_check_reports_reasons() {
    let samples = vec![rec("a", 100), rec("b", 100)];
    let c = metadata_check(&samples, &vec![None, Some("missing".to_string())]);
    assert!(!c.passed);
    assert_eq!(c.detail, vec!["b :: missing".to_string()]);
    assert!(metadata_check(&samples, &vec![None, None]).passed);
}

#[test]
fn doctor_check_metadata_json_flags_missing_file() {
    let dataset_dir = "/tmp/mi-legislation";
    let good_id = "mi-legislation/country:us/state:mi/sessions/2025-2026_103rd_Legislature/bills/HB4027";
    let good = metadata_path(good_id, dataset_dir).unwrap();
    let text = r#"{"title":"An Act…","identifier":"HB 4027"}"#;
    assert!(metadata_file_check(&good, true, Ok(text)).is_ok());
    let broken_id = "mi-legislation/country:us/state:mi/sessions/2025-2026_103rd_Legislature/bills/HB 4027";
    let broken = metadata_path(broken_id, dataset_dir).unwrap();
    assert_eq!(
        broken,
        "/tmp/mi-legislation/country:us/state:mi/sessions/2025-2026_103rd_Legislature/bills/HB 4027/metadata.json"
    );
    let err = metadata_file_check(&broken, false, Err("")).unwrap_err();
    assert!(err.contains("not found"), "expected 'not found' in error, got: {}", err);
    assert!(metadata_path("just-some-id", "/cache").unwrap_err().contains("country:.../bills/<bill_id>"));
}

#[test]
fn doctor_check_metadata_json_requires_title_or_identifier() {
    let none = obj(vec![("description", Json::Str("...".to_string()))]);
    let err = metadata_fields_verdict("/m.json", &none).unwrap_err();
    assert!(err.contains("neither `title` nor `identifier`"));
    let titled = obj(vec![("title", Json::Str("An Act".to_string()))]);
    assert!(metadata_fields_verdict("/m.json", &titled).is_ok());
    let empty_title = obj(vec![("title", Json::Str("".to_string())), ("identifier", Json::Str("HB 1".to_string()))]);
    assert!(metadata_fields_verdict("/m.json", &empty_title).is_ok());
}

#[test]
fn a_warned_dataset_still_passes() {
    let records: Vec<DocRecord> = vec![];
    let s = summarize_dataset("wy", &records, "-legislation", 5);
    let r = dataset_report("wy", "wy-legislation", s, &vec![], "");
    assert!(r.passed());
    assert!(r.warned());
    assert!(doctor_passed(&vec![r], &vec![], &vec![]));
}

#[test]
fn any_failure_fails_the_run() {
    let records = vec![rec("wy-legislation/country:us/state:wy/sessions/2025/bills/HB1", 10)];
    let s = summarize_dataset("wy", &records, "-legislation", 5);
    let r = dataset_report("wy", "wy-legislation", s, &vec![None], "");
    assert!(!r.passed());
    assert_eq!(r.checks.len(), 4);
    assert!(!doctor_passed(&vec![r], &vec![], &vec![]));
    assert!(!doctor_passed(&vec![], &vec!["x".to_string()], &vec![]));
    assert!(!doctor_passed(&vec![], &vec![], &vec!["wy-legislation".to_string()]));
}

#[test]
fn text_report_lists_datasets_checks_and_global_sections() {
    let report = DatasetReport {
        dataset: "nj".to_string(),
        record_count: 12,
        distinct_ids: 3,
        sampled: 2,
        checks: vec![
            DoctorCheck { name: "coverage".to_string(), passed: true, warned: false, detail: vec![] },
            DoctorCheck {
                name: "text".to_string(),
                passed: false,
                warned: false,
                detail: vec!["a :: text length 10 < 50".to_string()],
            },
        ],
    };
    let broken: Vec<String> = (0..7).map(|i| format!("b{}", i)).collect();
    let unrouted = vec!["x".to_string()];
    let lines = doctor_text_lines(&vec![report], &unrouted, &broken, false);
    assert_eq!(lines[0], "  [FAIL] nj                      records=12    distinct=3     sampled=2");
    assert_eq!(lines[1], "        - text: FAIL");
    assert_eq!(lines[2], "            \u{2022} a :: text length 10 < 50");
    assert_eq!(lines[3], "");
    assert_eq!(lines[4], "  [FAIL] global.dataset_links  7 broken or non-dir entry/entries in repos/:");
    assert_eq!(lines[5], "            \u{2022} b0 (likely a dangling symlink or non-directory)");
    assert_eq!(lines[10], "            \u{2022} ...and 2 more");
    assert_eq!(lines[11], "  [FAIL] global.routable_ids  1 id(s) without a `<dataset>/country:...` prefix:");
    assert_eq!(lines[12], "            \u{2022} x");
    assert_eq!(lines[13], "");
    assert_eq!(lines[14], "doctor: FAIL");
    assert_eq!(lines.len(), 15);

    let clean = doctor_text_lines(&vec![], &vec![], &vec![], true);
    assert_eq!(
        clean,
        vec![
            "".to_string(),
            "  [PASS] global.dataset_links".to_string(),
            "  [PASS] global.routable_ids".to_string(),
            "".to_string(),
            "doctor: PASS".to_string(),
        ]
    );
}
