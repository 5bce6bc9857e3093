use govbot::doc::ocd_entry_to_doc;
use govbot::json::Json;
use govbot::route::{bill_dir_from_metadata_path, dataset_short_name, parse_doc_route};

fn s(x: &str) -> Json {
    Json::Str(x.to_string())
}

fn obj(pairs: Vec<(&str, Json)>) -> Json {
    Json::Object(pairs.into_iter().map(|(k, v)| (k.to_string(), v)).collect())
}

fn str_at<'a>(doc: &'a Json, key: &str) -> Option<&'a str> {
    doc.get(key).and_then(|v| v.as_str())
}

fn entry(log_bill_id: &str, bill: Option<Json>, log: &str, bill_source: Option<&str>) -> Json {
    entry_with_action(log_bill_id, "PASSED", bill, log, bill_source)
}

fn entry_with_action(
    log_bill_id: &str,
    action: &str,
    bill: Option<Json>,
    log: &str,
    bill_source: Option<&str>,
) -> Json {
    let mut pairs = vec![(
        "log",
        obj(vec![
            ("bill_id", s(log_bill_id)),
            ("action", obj(vec![("description", s(action))])),
        ]),
    )];
    if let Some(b) = bill {
        pairs.push(("bill", b));
    }
    let mut sources = vec![("log", s(log))];
    if let Some(b) = bill_source {
        sources.push(("bill", s(b)));
    }
    pairs.push(("sources", obj(sources)));
    obj(pairs)
}

fn mock_bill(title: &str, identifier: &str) -> Json {
    obj(vec![("title", s(title)), ("identifier", s(identifier))])
}

#[test]
fn parse_doc_route_extracts_dataset_prefix() {
    let route = parse_doc_route("wy-legislation/country:us/state:wy/sessions/2025/bills/HB0001")
        .expect("dataset path should parse");
    assert_eq!(route.dataset.as_deref(), Some("wy-legislation"));
    assert_eq!(route.country, "us");
    assert_eq!(route.state, "wy");
    assert_eq!(route.session, "2025");
    assert_eq!(route.bill_id, "HB0001");
}

#[test]
fn parse_doc_route_handles_missing_dataset_prefix() {
    let route = parse_doc_route("country:us/state:wy/sessions/2025/bills/HB0001")
        .expect("dataset path without prefix should still parse");
    assert!(route.dataset.is_none());
    assert_eq!(route.bill_id, "HB0001");
}

#[test]
fn parse_doc_route_rejects_non_bill_ids() {
    assert!(parse_doc_route("just-some-other-id").is_none());
    assert!(parse_doc_route("wy-legislation/country:us").is_none());
}

#[test]
fn parse_doc_route_joins_nested_prefixes_and_skips_empty_segments() {
    let route = parse_doc_route("/a/b/country:us/state:wy/sessions/2025/bills/HB1").unwrap();
    assert_eq!(route.dataset.as_deref(), Some("a/b"));
    let route = parse_doc_route("/country:us/state:wy/sessions/2025/bills/HB1").unwrap();
    assert!(route.dataset.is_none());
}

#[test]
fn ocd_entry_to_doc_per_bill_log_layout_keeps_bill_suffix() {
    let e = entry_with_action(
        "HB0001",
        "ANY",
        Some(mock_bill("Mock bill", "HB0001")),
        "wy-legislation/country:us/state:wy/sessions/2025/bills/HB0001/logs/20250101T000000Z_foo.json",
        Some("wy-legislation/country:us/state:wy/sessions/2025/bills/HB0001/metadata.json"),
    );
    let doc = ocd_entry_to_doc(&e);
    assert_eq!(
        str_at(&doc, "id"),
        Some("wy-legislation/country:us/state:wy/sessions/2025/bills/HB0001")
    );
    assert_eq!(
        parse_doc_route(str_at(&doc, "id").unwrap()).expect("route").bill_id,
        "HB0001"
    );
}

#[test]
fn ocd_entry_to_doc_session_level_log_layout_appends_bill_id() {
    let e = entry(
        "SB50",
        Some(mock_bill("Mock bill", "SB50")),
        "ak-legislation/country:us/state:ak/sessions/34/logs/20250317T000000Z.vote_event.pass.upper_SB50.json",
        Some("../../../../.govbot/cache/ak-abc123/country:us/state:ak/sessions/34/bills/SB50/metadata.json"),
    );
    let doc = ocd_entry_to_doc(&e);
    assert_eq!(
        str_at(&doc, "id"),
        Some("ak-legislation/country:us/state:ak/sessions/34/bills/SB50"),
        "id must include /bills/<bill_id> for session-level log layouts"
    );
    let route = parse_doc_route(str_at(&doc, "id").unwrap())
        .expect("session-level layout must still produce a routable doc id");
    assert_eq!(route.bill_id, "SB50");
    assert_eq!(route.session, "34");
}

#[test]
fn ocd_entry_to_doc_distinct_bills_same_session_get_distinct_ids() {
    let make = |bill_id: &str, log_file: &str| {
        entry(
            bill_id,
            Some(mock_bill("Mock", bill_id)),
            &format!("ak-legislation/country:us/state:ak/sessions/34/logs/{}", log_file),
            Some(&format!(
                "../../../../.govbot/cache/ak-x/country:us/state:ak/sessions/34/bills/{}/metadata.json",
                bill_id
            )),
        )
    };
    let entries = vec![
        make("SB50", "20250317T000000Z.vote_event.pass.upper_SB50.json"),
        make("HR2", "20250121T000000Z.vote_event.pass.lower_HR2.json"),
        make("HJR20", "20250514T000000Z_h_fn1_zeroleg_HJR20.json"),
        make("HB55", "20250306T000000Z_h_heard_held_HB55.json"),
    ];
    let ids: Vec<String> = entries
        .iter()
        .map(|e| str_at(&ocd_entry_to_doc(e), "id").unwrap().to_string())
        .collect();
    let unique: std::collections::HashSet<&String> = ids.iter().collect();
    assert_eq!(ids.len(), unique.len(), "4 bills under one session must produce 4 distinct ids; got: {:?}", ids);
}

#[test]
fn ocd_entry_to_doc_uses_canonical_bill_dir_when_log_bill_id_has_whitespace() {
    let e = entry(
        "SB 0001",
        Some(mock_bill("Mock", "SB 0001")),
        "mi-legislation/country:us/state:mi/sessions/2025-2026/logs/20250108T000000Z_referred_to_committee_of_the_whole_SB0001.json",
        Some("../../../../.govbot/cache/mi-ad5ea7bbd548/country:us/state:mi/sessions/2025-2026/bills/SB0001/metadata.json"),
    );
    let doc = ocd_entry_to_doc(&e);
    let id = str_at(&doc, "id").expect("doc id must be a string");
    assert_eq!(
        id, "mi-legislation/country:us/state:mi/sessions/2025-2026/bills/SB0001",
        "id must use the canonical on-disk bill dir name (no whitespace)"
    );
    assert!(!id.contains(' '), "id must not carry display-form whitespace; got: {}", id);
}

#[test]
fn ocd_entry_to_doc_uses_canonical_bill_dir_for_all_affected_states() {
    let cases = [
        ("SB 0001", "SB0001", "mi-legislation", "mi", "2025-2026", "20250108T000000Z_referred_to_committee_of_the_whole_SB0001.json"),
        ("SB 458", "SB458", "wv-legislation", "wv", "2025", "20250307T000000Z_read_2nd_time_SB458.json"),
        ("SB 2262", "SB2262", "nd-legislation", "nd", "69", "20250501T000000Z_signed_by_governor_0429_SB2262.json"),
        ("HB 1271", "HB1271", "pa-legislation", "pa", "2025-2026", "20250421T040000Z_referred_to_education_HB1271.json"),
    ];
    for (display_id, on_disk_dir, dataset, state, session, log_file) in cases {
        let e = entry(
            display_id,
            Some(mock_bill("Mock", display_id)),
            &format!("{}/country:us/state:{}/sessions/{}/logs/{}", dataset, state, session, log_file),
            Some(&format!(
                "../../../../.govbot/cache/{}-deadbeef/country:us/state:{}/sessions/{}/bills/{}/metadata.json",
                state, state, session, on_disk_dir
            )),
        );
        let doc = ocd_entry_to_doc(&e);
        let id = str_at(&doc, "id").unwrap_or_default().to_string();
        assert_eq!(
            id,
            format!("{}/country:us/state:{}/sessions/{}/bills/{}", dataset, state, session, on_disk_dir),
            "{}: id must use the on-disk dir `{}`, not the log's display id `{}`",
            state, on_disk_dir, display_id
        );
        assert!(!id.contains(' '), "{}: id contains whitespace; got: {}", state, id);
        let route = parse_doc_route(&id).expect("routable doc id even for spaced bill_id inputs");
        assert_eq!(route.bill_id, on_disk_dir, "{}: parsed bill_id must be the on-disk dir", state);
    }
}

#[test]
fn ocd_entry_to_doc_layout1_with_spaced_log_bill_id_does_not_double_bills_segment() {
    let e = obj(vec![
        ("log", obj(vec![("bill_id", s("HR 0163")), ("action", obj(vec![("description", s("ANY"))]))])),
        ("bill", mock_bill("Mock", "HR 0163")),
        (
            "sources",
            obj(vec![
                ("log", s("mi-legislation/country:us/state:mi/sessions/2025-2026/bills/HR0163/logs/20250101T000000Z_foo.json")),
                ("bill", s("../../../../.govbot/cache/mi-x/country:us/state:mi/sessions/2025-2026/bills/HR0163/metadata.json")),
            ]),
        ),
    ]);
    let doc = ocd_entry_to_doc(&e);
    let id = str_at(&doc, "id").unwrap_or_default();
    assert_eq!(
        id, "mi-legislation/country:us/state:mi/sessions/2025-2026/bills/HR0163",
        "Layout 1 with spaced log.bill_id must not double-append the /bills/<dir> segment"
    );
    assert!(!id.contains("/bills/HR0163/bills/"), "id must not double the bills segment; got: {}", id);
    assert!(!id.contains(' '), "id must not contain whitespace; got: {}", id);
}

#[test]
fn bill_dir_from_metadata_path_extracts_dir_segment() {
    assert_eq!(
        bill_dir_from_metadata_path(
            "../../../../.govbot/cache/mi-x/country:us/state:mi/sessions/2025-2026/bills/HB5109/metadata.json"
        ),
        Some("HB5109".to_string())
    );
    assert_eq!(
        bill_dir_from_metadata_path("wy-legislation/country:us/state:wy/sessions/2025/bills/HB0001/metadata.json"),
        Some("HB0001".to_string())
    );
    assert_eq!(bill_dir_from_metadata_path("country:us/state:wy/sessions/2025/metadata.json"), None);
    assert_eq!(bill_dir_from_metadata_path("metadata.json"), None);
    assert_eq!(bill_dir_from_metadata_path(""), None);
}

#[test]
fn ocd_entry_to_doc_falls_back_to_log_bill_id_when_bill_join_absent() {
    let e = entry(
        "SB 0001",
        None,
        "mi-legislation/country:us/state:mi/sessions/2025-2026/logs/20250108T000000Z_x.json",
        None,
    );
    let doc = ocd_entry_to_doc(&e);
    assert_eq!(
        str_at(&doc, "id"),
        Some("mi-legislation/country:us/state:mi/sessions/2025-2026/bills/SB 0001"),
        "without sources.bill we fall back to log.bill_id (advisory; may carry whitespace)"
    );
}

fn subject_entry(subject: Option<Json>) -> Json {
    let mut bill = vec![("title", s("An act about clean energy")), ("identifier", s("HB0001"))];
    if let Some(sub) = subject {
        bill.push(("subject", sub));
    }
    entry(
        "HB0001",
        Some(obj(bill)),
        "wy-legislation/country:us/state:wy/sessions/2025/bills/HB0001/logs/x.json",
        Some("wy-legislation/country:us/state:wy/sessions/2025/bills/HB0001/metadata.json"),
    )
}

#[test]
fn ocd_entry_to_doc_surfaces_subjects_when_present() {
    let e = subject_entry(Some(Json::Array(vec![s("ENERGY"), s("ENVIRONMENT"), s("TAXATION")])));
    let doc = ocd_entry_to_doc(&e);
    let subjects = doc
        .get("subjects")
        .and_then(|v| v.as_array())
        .expect("subjects must be present and an array when bill carries subject:");
    let actual: Vec<&str> = subjects.iter().filter_map(|v| v.as_str()).collect();
    assert_eq!(actual, vec!["ENERGY", "ENVIRONMENT", "TAXATION"]);
    assert_eq!(str_at(&doc, "kind"), Some("docs"));
    assert!(str_at(&doc, "text").unwrap_or("").contains("clean energy"));
}

#[test]
fn ocd_entry_to_doc_omits_subjects_when_bill_has_no_subject_key() {
    let doc = ocd_entry_to_doc(&subject_entry(None));
    assert!(doc.get("subjects").is_none());
}

#[test]
fn ocd_entry_to_doc_omits_subjects_when_subject_array_is_empty() {
    let doc = ocd_entry_to_doc(&subject_entry(Some(Json::Array(vec![]))));
    assert!(doc.get("subjects").is_none());
}

#[test]
fn ocd_entry_to_doc_omits_subjects_when_subject_array_is_all_blank() {
    let doc = ocd_entry_to_doc(&subject_entry(Some(Json::Array(vec![s(""), s("   ")]))));
    assert!(doc.get("subjects").is_none());
}

#[test]
fn ocd_entry_to_doc_omits_subjects_when_bill_join_absent() {
    let e = entry(
        "HB0001",
        None,
        "wy-legislation/country:us/state:wy/sessions/2025/bills/HB0001/logs/x.json",
        None,
    );
    let doc = ocd_entry_to_doc(&e);
    assert!(doc.get("subjects").is_none());
}

#[test]
fn doctor_dataset_short_name_strips_known_suffixes() {
    assert_eq!(dataset_short_name("nj-legislation", "-legislation"), "nj");
    assert_eq!(dataset_short_name("usa-legislation", "-legislation"), "usa");
    assert_eq!(dataset_short_name("wy-data-pipeline", "-legislation"), "wy");
    assert_eq!(dataset_short_name("nj-pkg", "-pkg"), "nj");
    assert_eq!(dataset_short_name("wy", "-legislation"), "wy");
}
