use govbot::config::{Manifest, Publisher, PublisherKind};
use govbot::smap::StrMap;
use govbot::json::Json;
use govbot::publish::{
    deduplicate_entries, duckdb_load_sql, duckdb_records_file, feed_description, feed_link,
    feed_title, filter_by_tags, html_title, parse_cli_limit, pick_setting, publish_plan, publisher_output,
    sort_by_timestamp, titlecase_tag,
};

fn s(x: &str) -> Json {
    Json::Str(x.to_string())
}

fn obj(pairs: Vec<(&str, Json)>) -> Json {
    Json::Object(pairs.into_iter().map(|(k, v)| (k.to_string(), v)).collect())
}

fn log(dataset: &str, session: &str, bill_id: &str, filename: &str, ts: &str) -> Json {
    obj(vec![
        ("id", s(bill_id)),
        ("timestamp", s(ts)),
        ("bill", obj(vec![("title", s(&format!("Bill {}", bill_id))), ("identifier", s(bill_id))])),
        ("log", obj(vec![("bill_id", s(bill_id))])),
        (
            "sources",
            obj(vec![(
                "log",
                s(&format!("{}/country:us/state:xx/sessions/{}/logs/{}", dataset, session, filename)),
            )]),
        ),
        ("tags", obj(vec![("clean_energy", obj(vec![("final_score", Json::Number("0.9".to_string()))]))])),
    ])
}

fn publisher(kind: PublisherKind) -> Publisher {
    Publisher {
        kind,
        select: None,
        base_url: None,
        output_dir: None,
        output_file: None,
        title: None,
        description: None,
        limit: None,
        ledger: None,
        post_template: None,
    }
}

#[test]
fn deduplicate_entries_collapses_action_logs_to_one_per_bill() {
    let entries: Vec<Json> = (1..=6)
        .map(|i| {
            log(
                "nv-legislation",
                "2025Special36",
                "AB1",
                &format!("2025111{}T080000Z.classification.referral.json", i),
                &format!("2025111{}T080000Z", i),
            )
        })
        .collect();
    let out = deduplicate_entries(entries);
    assert_eq!(out.len(), 1, "6 action logs for the same bill must dedup to 1; got {}", out.len());
}

#[test]
fn deduplicate_entries_keeps_distinct_bills() {
    let entries = vec![
        log("nv-legislation", "2025Special36", "AB1", "20251111T080000Z.a.json", "20251111T080000Z"),
        log("nv-legislation", "2025Special36", "AB1", "20251112T080000Z.b.json", "20251112T080000Z"),
        log("nv-legislation", "2025Special36", "AB2", "20251111T080000Z.c.json", "20251111T080000Z"),
    ];
    let out = deduplicate_entries(entries);
    assert_eq!(out.len(), 2, "AB1 collapses to 1 record; AB2 survives");
}

#[test]
fn sort_puts_newest_first() {
    let entries = vec![
        log("d", "s", "A", "a.json", "20250101T000000Z"),
        log("d", "s", "B", "b.json", "20250301T000000Z"),
        log("d", "s", "C", "c.json", "20250201T000000Z"),
    ];
    let out = sort_by_timestamp(entries);
    let ids: Vec<&str> = out.iter().map(|e| e.get("id").and_then(|v| v.as_str()).unwrap()).collect();
    assert_eq!(ids, vec!["B", "C", "A"]);
}

#[test]
fn filter_by_tags_requires_a_tag() {
    let tagged = log("d", "s", "A", "a.json", "t");
    let untagged = obj(vec![("id", s("x"))]);
    assert!(filter_by_tags(&tagged, &[]));
    assert!(filter_by_tags(&tagged, &["clean_energy".to_string()]));
    assert!(!filter_by_tags(&tagged, &["fossil_fuels".to_string()]));
    assert!(!filter_by_tags(&untagged, &[]));
}

#[test]
fn titlecase_tag_spaces_and_capitalizes() {
    assert_eq!(titlecase_tag("clean_energy"), "Clean Energy");
    assert_eq!(titlecase_tag("  public__transit "), "Public Transit");
}

#[test]
fn feed_title_and_description_derive_from_tags() {
    let select = vec!["clean_energy".to_string(), "housing".to_string()];
    assert_eq!(feed_title(&None, &select), "Clean Energy & Housing Legislation");
    assert_eq!(feed_title(&None, &vec![]), "Legislation");
    assert_eq!(feed_title(&Some("Mine".to_string()), &select), "Mine");
    assert_eq!(
        feed_description(&None, &select),
        "Legislative updates tagged Clean Energy, Housing"
    );
    assert_eq!(feed_description(&None, &vec![]), "Legislative updates");
}

#[test]
fn rss_publisher_writes_only_feed_xml() {
    let (dir, file) = publisher_output(&publisher(PublisherKind::Rss), &None, &None);
    assert_eq!(dir, "docs");
    assert_eq!(file, "feed.xml");
}

#[test]
fn html_publisher_writes_only_index_html() {
    let (dir, file) = publisher_output(&publisher(PublisherKind::Html), &None, &None);
    assert_eq!(dir, "docs");
    assert_eq!(file, "index.html");
}

#[test]
fn output_overrides_take_precedence() {
    let mut p = publisher(PublisherKind::Json);
    p.output_dir = Some("dist".to_string());
    let (dir, file) = publisher_output(&p, &Some("out".to_string()), &None);
    assert_eq!(dir, "out");
    assert_eq!(file, "feed.json");
    let (dir, file) = publisher_output(&p, &None, &Some("x.json".to_string()));
    assert_eq!(dir, "dist");
    assert_eq!(file, "x.json");
    assert_eq!(publisher_output(&publisher(PublisherKind::Duckdb), &None, &None).1, "feed.duckdb");
}

#[test]
fn html_title_ignores_blank_titles() {
    assert_eq!(html_title(&Some("  ".to_string())), None);
    assert_eq!(html_title(&Some("Climate".to_string())).as_deref(), Some("Climate"));
    assert_eq!(html_title(&None), None);
}

#[test]
fn feed_link_defaults_to_example() {
    assert_eq!(feed_link(&None), "https://example.com");
    assert_eq!(feed_link(&Some("https://x.org".to_string())), "https://x.org");
    assert_eq!(pick_setting(&None, &None, "fallback"), "fallback");
}

#[test]
fn duckdb_publisher_loads_its_records_file() {
    assert_eq!(duckdb_records_file("db"), "db.records.json");
    assert_eq!(
        duckdb_load_sql("out/db.records.json"),
        "CREATE OR REPLACE TABLE records AS SELECT * FROM read_json_auto('out/db.records.json');"
    );
}

#[test]
fn cli_limit_parses_none_and_counts() {
    assert_eq!(parse_cli_limit(None), None);
    assert_eq!(parse_cli_limit(Some("NONE")), Some(None));
    assert_eq!(parse_cli_limit(Some("25")), Some(Some(25)));
    assert_eq!(parse_cli_limit(Some("x")), Some(None));
}

#[test]
fn sorting_before_dedup_keeps_each_bills_newest_log() {
    let entries = vec![
        log("ak-legislation", "34", "HB53", "a.json", "20250101T000000Z"),
        log("ak-legislation", "34", "SB50", "b.json", "20250201T000000Z"),
        log("ak-legislation", "34", "HB53", "c.json", "20250301T000000Z"),
    ];
    let kept = deduplicate_entries(sort_by_timestamp(entries));
    let stamps: Vec<String> = kept
        .iter()
        .map(|e| e.get("timestamp").and_then(|t| t.as_str()).unwrap().to_string())
        .collect();
    assert_eq!(stamps, vec!["20250301T000000Z".to_string(), "20250201T000000Z".to_string()]);
}

#[test]
fn publish_plan_runs_each_publisher_on_its_records() {
    let mut publish = StrMap::new();
    publish.insert("feed".to_string(), publisher(PublisherKind::Json));
    publish.insert("sky".to_string(), publisher(PublisherKind::Bluesky));
    let manifest = Manifest {
        schema: None,
        datasets: vec!["wy".to_string()],
        transforms: StrMap::new(),
        publish,
        pipelines: StrMap::new(),
    };
    let records = vec![
        log("ak-legislation", "34", "HB53", "a.json", "20250101T000000Z"),
        log("ak-legislation", "34", "HB53", "c.json", "20250301T000000Z"),
        log("ak-legislation", "34", "SB50", "b.json", "20250201T000000Z"),
    ];
    let plan = publish_plan(&manifest, &vec![], &records, Some("1")).ok().unwrap();
    assert_eq!(plan.len(), 2);
    assert_eq!((plan[0].name.as_str(), plan[0].entries.len(), plan[0].before_limit), ("feed", 1, 2));
    assert_eq!((plan[1].name.as_str(), plan[1].entries.len(), plan[1].before_limit), ("sky", 3, 3));
    assert!(publish_plan(&manifest, &vec!["nope".to_string()], &records, None).is_err());
}
