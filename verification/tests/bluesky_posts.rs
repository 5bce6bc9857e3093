use govbot::bluesky::{
    best_per_bill, bluesky_step, creds_present, dry_run_header, dry_run_post, ledger_ids, ledger_paths,
    pending_posts, post_failure_message, post_link, post_request, post_uri, render_post_text,
    require_credential, service_url, session_from_response, session_request, truncate_post,
    xrpc_url, BlueskyStep, POST_TEXT_LIMIT,
};
use govbot::json::Json;

fn s(x: &str) -> Json {
    Json::Str(x.to_string())
}

fn obj(pairs: Vec<(&str, Json)>) -> Json {
    Json::Object(pairs.into_iter().map(|(k, v)| (k.to_string(), v)).collect())
}

#[test]
fn truncate_respects_limit() {
    let long = "word ".repeat(100);
    let out = truncate_post(&long);
    assert!(out.chars().count() <= POST_TEXT_LIMIT);
    assert!(out.ends_with('\u{2026}'));
}

#[test]
fn truncate_leaves_short_text_alone() {
    assert_eq!(truncate_post("  hello  "), "hello");
}

#[test]
fn truncate_cuts_at_a_word_boundary() {
    let long = "word ".repeat(100);
    let out = truncate_post(&long);
    assert!(out.trim_end_matches('\u{2026}').ends_with("word"));
}

#[test]
fn render_substitutes_template_placeholders() {
    let entry = obj(vec![
        ("id", s("wy-legislation/.../HB0001")),
        ("bill", obj(vec![("title", s("Renewable energy storage act")), ("identifier", s("HB 1"))])),
        ("tags", obj(vec![("clean_energy", obj(vec![("final_score", Json::Number("0.92".to_string()))]))])),
    ]);
    let text = render_post_text(&entry, Some("{title} [{identifier}] {tags} {score}"), "", "0.92");
    assert!(text.contains("Renewable energy storage act"));
    assert!(text.contains("[HB 1]"));
    assert!(text.contains("clean_energy"));
    assert!(text.contains("0.92"));
}

#[test]
fn render_uses_the_link_it_is_given() {
    let entry = obj(vec![("bill", obj(vec![("title", s("Wind energy permitting act"))]))]);
    let text = render_post_text(&entry, Some("{title} {link}"), "https://example.org/x", "");
    assert_eq!(text, "Wind energy permitting act https://example.org/x");
}

#[test]
fn render_link_uses_publisher_base_url() {
    let entry = obj(vec![
        ("id", s("wy-legislation/.../HB0001")),
        ("bill", obj(vec![("title", s("Wind energy permitting act")), ("identifier", s("HB 1"))])),
        ("sources", obj(vec![("bill", s("wy-legislation/.../HB0001/metadata.json"))])),
        ("tags", obj(vec![("clean_energy", obj(vec![("final_score", Json::Number("0.91".to_string()))]))])),
    ]);
    let link = post_link(&entry, Some("https://example.org/climate-tracker"));
    let text = render_post_text(&entry, Some("{title} {link}"), &link, "0.91");
    assert!(
        text.contains("https://example.org/climate-tracker/wy-legislation/.../HB0001/metadata.json"),
        "expected base_url to be prepended to source path; got: {}",
        text
    );
}

#[test]
fn render_link_falls_back_to_bill_source_url() {
    let entry = obj(vec![
        ("id", s("wy-legislation/.../HB0001")),
        (
            "bill",
            obj(vec![
                ("title", s("Solar tax-credit act")),
                ("identifier", s("HB 1")),
                ("sources", Json::Array(vec![obj(vec![("url", s("https://wyoleg.gov/2025/Bills/HB0001"))])])),
            ]),
        ),
        ("tags", obj(vec![("clean_energy", obj(vec![("final_score", Json::Number("0.9".to_string()))]))])),
    ]);
    let link = post_link(&entry, None);
    let text = render_post_text(&entry, Some("{title} -> {link}"), &link, "0.90");
    assert!(
        text.contains("https://wyoleg.gov/2025/Bills/HB0001"),
        "expected bill.sources[0].url to render as {{link}}; got: {}",
        text
    );
}

#[test]
fn post_link_trims_trailing_slashes_of_the_base() {
    let entry = obj(vec![("sources", obj(vec![("bill", s("a/b/metadata.json"))]))]);
    assert_eq!(post_link(&entry, Some("https://x.org//")), "https://x.org/a/b/metadata.json");
    assert_eq!(post_link(&entry, None), "");
}

#[test]
fn creds_present_reflects_env() {
    assert!(!creds_present(None, None));
    assert!(!creds_present(Some("x.bsky.social"), None));
    assert!(creds_present(Some("x.bsky.social"), Some("abcd-efgh-ijkl-mnop")));
    assert!(!creds_present(Some("   "), Some("abcd-efgh-ijkl-mnop")));
}

#[test]
fn service_url_defaults_to_bsky_social() {
    assert_eq!(service_url(None), "https://bsky.social");
    assert_eq!(service_url(Some("  ")), "https://bsky.social");
    assert_eq!(service_url(Some("https://pds.example")), "https://pds.example");
}

#[test]
fn xrpc_url_strips_trailing_slashes() {
    assert_eq!(
        xrpc_url("https://bsky.social//", "com.atproto.server.createSession"),
        "https://bsky.social/xrpc/com.atproto.server.createSession"
    );
}

#[test]
fn ledger_defaults_to_state_dir_with_legacy_fallback() {
    let (primary, legacy) = ledger_paths(&None, "/p", "bluesky");
    assert_eq!(primary, "/p/state/bluesky-bluesky.ledger");
    assert_eq!(legacy.as_deref(), Some("/p/.govbot/bluesky-bluesky.ledger"));
    let (primary, legacy) = ledger_paths(&Some("posted.ledger".to_string()), "/p", "x");
    assert_eq!(primary, "/p/posted.ledger");
    assert!(legacy.is_none());
}

#[test]
fn ledger_ids_skip_blank_lines() {
    assert_eq!(ledger_ids(" a \n\n b\n"), vec!["a".to_string(), "b".to_string()]);
}

#[test]
fn pending_posts_exclude_the_ledger() {
    let posts = vec!["a".to_string(), "b".to_string(), "c".to_string()];
    let ledger = vec!["b".to_string()];
    assert_eq!(pending_posts(&posts, &ledger), vec![0, 2]);
}

#[test]
fn rerun_after_posting_leaves_nothing_pending() {
    let posts = vec!["a".to_string(), "b".to_string(), "c".to_string()];
    let mut ledger = vec!["b".to_string()];
    for i in pending_posts(&posts, &ledger) {
        ledger.push(posts[i].clone());
    }
    assert!(pending_posts(&posts, &ledger).is_empty());
}

#[test]
fn session_request_carries_the_credentials() {
    let body = session_request("me.bsky.social", "pw");
    assert_eq!(body.get("identifier").and_then(|v| v.as_str()), Some("me.bsky.social"));
    assert_eq!(body.get("password").and_then(|v| v.as_str()), Some("pw"));
}

#[test]
fn session_response_requires_token_and_did() {
    let ok = obj(vec![("accessJwt", s("jwt")), ("did", s("did:plc:1"))]);
    let session = session_from_response(&ok, "me").unwrap();
    assert_eq!(session.access_jwt, "jwt");
    assert_eq!(session.did, "did:plc:1");
    assert_eq!(session.handle, "me");
    let missing = obj(vec![("did", s("did:plc:1"))]);
    assert_eq!(
        session_from_response(&missing, "me").err().as_deref(),
        Some("createSession response missing accessJwt")
    );
    let no_did = obj(vec![("accessJwt", s("jwt"))]);
    assert_eq!(
        session_from_response(&no_did, "me").err().as_deref(),
        Some("createSession response missing did")
    );
}

#[test]
fn post_request_is_an_app_bsky_feed_post() {
    let body = post_request("did:plc:1", "hello", "2025-01-01T00:00:00.000Z");
    assert_eq!(body.get("repo").and_then(|v| v.as_str()), Some("did:plc:1"));
    assert_eq!(body.get("collection").and_then(|v| v.as_str()), Some("app.bsky.feed.post"));
    let record = body.get("record").unwrap();
    assert_eq!(record.get("$type").and_then(|v| v.as_str()), Some("app.bsky.feed.post"));
    assert_eq!(record.get("text").and_then(|v| v.as_str()), Some("hello"));
    assert_eq!(record.get("createdAt").and_then(|v| v.as_str()), Some("2025-01-01T00:00:00.000Z"));
    assert_eq!(post_uri(&obj(vec![("uri", s("at://x"))])), "at://x");
    assert_eq!(post_uri(&obj(vec![])), "<unknown>");
}

#[test]
fn missing_credential_names_the_variable() {
    assert_eq!(require_credential("BLUESKY_HANDLE", Some("me")).unwrap(), "me");
    let err = require_credential("BLUESKY_HANDLE", Some(" ")).unwrap_err();
    assert!(err.contains("needs the BLUESKY_HANDLE environment variable"));
}

#[test]
fn bluesky_step_follows_the_run_order() {
    assert!(matches!(bluesky_step(0, 0, false, true), BlueskyStep::NothingToPost));
    assert!(matches!(bluesky_step(3, 2, true, false), BlueskyStep::DryRun));
    assert!(matches!(bluesky_step(3, 0, false, true), BlueskyStep::AllPosted));
    assert!(matches!(bluesky_step(3, 2, false, false), BlueskyStep::MissingCredentials));
    assert!(matches!(bluesky_step(3, 2, false, true), BlueskyStep::Post));
}

#[test]
fn dry_run_report_counts_posts() {
    assert_eq!(
        dry_run_header("bluesky", 5, 2),
        "Publisher 'bluesky' (bluesky) --dry-run: 5 record(s) cleared the threshold, 3 already posted, 2 would be posted. No network, no ledger writes."
    );
    assert_eq!(dry_run_post(0, 2, "id1", "text"), "--- post 1 of 2 (id: id1) ---\ntext\n\n");
    assert_eq!(
        post_failure_message("b", 1, 3, "id2", "boom"),
        "Publisher 'b' (bluesky): posted 1/3 record(s); failed on id2: boom"
    );
}

#[test]
fn one_post_per_bill_from_its_best_record() {
    let ids = vec!["x".to_string(), "y".to_string(), "x".to_string(), "x".to_string()];
    let ranks = vec![1, 5, 3, 3];
    assert_eq!(best_per_bill(&ids, &ranks), vec![1, 2]);
    let kept: Vec<String> = best_per_bill(&ids, &ranks).iter().map(|i| ids[*i].clone()).collect();
    assert_eq!(pending_posts(&kept, &vec![]), vec![0, 1]);
    assert!(best_per_bill(&vec![], &vec![]).is_empty());
}
