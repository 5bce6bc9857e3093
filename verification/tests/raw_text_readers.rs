use govbot::bluesky::{post_uri_from_text, session_from_response_text};
use govbot::doctor::{doc_records_from_stream, metadata_path, metadata_text_verdict};
use govbot::json::Json;
use govbot::publish::parse_record_stream;
use govbot::source::{read_log, source_record_from_text};

#[test]
fn read_log_parses_and_finds_the_bill_id() {
    let (log, bill) = read_log(r#"{"bill_identifier":"HB 1","action":{"description":"PASSED"}}"#).unwrap();
    assert_eq!(bill.as_deref(), Some("HB 1"));
    assert!(log.get("action").is_some());
    let (_, bill) = read_log(r#"{"bill_id":"SB50","bill_identifier":"x"}"#).unwrap();
    assert_eq!(bill.as_deref(), Some("SB50"));
    assert!(read_log("{not json").is_err());
}

#[test]
fn source_record_joins_bill_only_from_valid_metadata() {
    let (log, _) = read_log(r#"{"bill_id":"HB1"}"#).unwrap();
    let specs = vec![("bill".to_string(), Vec::new())];
    let rec = source_record_from_text(
        log,
        "wy-legislation/country:us/state:wy/sessions/2025/logs/20250101T000000Z_a.json",
        &specs,
        Some((r#"{"title":"Wind act"}"#, "wy-legislation/bills/HB1/metadata.json")),
        Vec::new(),
    );
    assert_eq!(rec.get("bill").and_then(|b| b.get("title")).and_then(|t| t.as_str()), Some("Wind act"));
    let (log, _) = read_log(r#"{"bill_id":"HB1"}"#).unwrap();
    let rec = source_record_from_text(log, "a/logs/b.json", &specs, Some(("oops", "m.json")), Vec::new());
    assert!(rec.get("bill").is_none());
}

#[test]
fn record_stream_keeps_json_lines_and_reports_bad_ones() {
    let text = "{\"a\":1}\n\n  not json  \n   Compiling govbot\n[2]\n";
    let (records, errors) = parse_record_stream(text);
    assert_eq!(records.len(), 2);
    assert!(matches!(&records[1], Json::Array(v) if v.len() == 1));
    assert_eq!(errors.len(), 1);
}

#[test]
fn doc_stream_records_id_and_text_bytes() {
    let text = "{\"id\":\"a\",\"text\":\"h\u{e9}llo\"}\n\nbad\n{\"text\":\"x\"}";
    let recs = doc_records_from_stream(text);
    assert_eq!(recs.len(), 2);
    assert_eq!((recs[0].id.as_str(), recs[0].text_len), ("a", 6));
    assert_eq!((recs[1].id.as_str(), recs[1].text_len), ("", 1));
}

#[test]
fn doctor_check_metadata_json_flags_unparseable() {
    let id = "ca-legislation/country:us/state:ca/sessions/2025-2026/bills/AB100";
    let path = metadata_path(id, "/tmp/ca-legislation").unwrap();
    let err = metadata_text_verdict(&path, "{ this is not json").unwrap_err();
    assert!(err.contains("invalid JSON"));
    assert!(err.starts_with(&format!("invalid JSON in {}: ", path)), "got: {}", err);
    assert!(metadata_text_verdict(&path, r#"{"identifier":"HB 1"}"#).is_ok());
    assert!(metadata_text_verdict(&path, r#"{"title":""}"#).is_err());
}

#[test]
fn bluesky_response_texts_are_read() {
    let s = session_from_response_text(r#"{"accessJwt":"j","did":"d"}"#, "me").unwrap();
    assert_eq!((s.access_jwt.as_str(), s.did.as_str(), s.handle.as_str()), ("j", "d", "me"));
    assert!(session_from_response_text("<html>", "me").is_err());
    assert_eq!(post_uri_from_text(r#"{"uri":"at://x"}"#), "at://x");
    assert_eq!(post_uri_from_text("nope"), "<unknown>");
}
