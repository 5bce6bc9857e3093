use govbot::apply::{apply_summary, matched_tags, plan_bill, should_write, ApplyDecision};
use govbot::tagfile::{hash_text, TagFileMetadata};

fn tags(list: &[(&str, bool)]) -> Vec<(String, bool)> {
    list.iter().map(|(n, m)| (n.to_string(), *m)).collect()
}

fn plan(doc: &str, t: &[(&str, bool)], requested: Option<&str>, explicit: Option<&str>) -> ApplyDecision {
    plan_bill(doc, &tags(t), requested, explicit, "/tmp/project")
}

#[test]
fn tag_paths_are_dataset_isolated() {
    let path_of = |doc: &str| match plan(doc, &[("clean_energy", true)], None, None) {
        ApplyDecision::Write(p) => p.writes[0].1.clone(),
        _ => panic!("expected a write"),
    };
    let path_a = path_of("wy-legislation/country:us/state:wy/sessions/2025/bills/HB0001");
    let path_b = path_of("wy-counties/country:us/state:wy/sessions/2025/bills/HB0001");
    assert_eq!(
        path_a,
        "/tmp/project/tags/wy-legislation/country:us/state:wy/sessions/2025/clean_energy.tag.json"
    );
    assert_ne!(path_a, path_b, "dataset prefix must split the tag file");
    assert!(path_a.starts_with("/tmp/project/tags/"));
    assert!(path_b.starts_with("/tmp/project/tags/"));
    assert!(!path_a.starts_with("/tmp/project/.govbot"));
    assert!(!path_b.starts_with("/tmp/project/.govbot"));
}

#[test]
fn explicit_output_dir_drops_the_dataset_prefix() {
    match plan(
        "wy-legislation/country:us/state:wy/sessions/2025/bills/HB0001",
        &[("a", true)],
        None,
        Some("/out"),
    ) {
        ApplyDecision::Write(p) => {
            assert_eq!(p.base_dir, "/out");
            assert_eq!(p.tags_dir, "/out/country:us/state:wy/sessions/2025");
            assert_eq!(p.bill_id, "HB0001");
        }
        _ => panic!("expected a write"),
    }
}

#[test]
fn docs_without_a_dataset_go_under_tags() {
    match plan("country:us/state:wy/sessions/2025/bills/HB0001", &[("a", true)], None, None) {
        ApplyDecision::Write(p) => assert_eq!(p.base_dir, "/tmp/project/tags"),
        _ => panic!("expected a write"),
    }
}

#[test]
fn non_bill_docs_are_skipped_with_a_warning() {
    match plan("just-some-id", &[("a", true)], None, None) {
        ApplyDecision::Skip(m) => assert!(m.starts_with("Warning: skipping 'just-some-id'")),
        _ => panic!("expected a skip"),
    }
}

#[test]
fn only_matched_and_requested_tags_are_written() {
    assert_eq!(matched_tags(&tags(&[("a", true), ("b", false), ("c", true)]), None), vec![0, 2]);
    assert_eq!(matched_tags(&tags(&[("a", true), ("c", true)]), Some("c")), vec![1]);
    assert!(matches!(
        plan("x/country:us/state:wy/sessions/1/bills/B", &[("a", false)], None, None),
        ApplyDecision::NothingMatched
    ));
}

#[test]
fn existing_entries_survive_without_overwrite() {
    assert!(!should_write(false, true));
    assert!(should_write(false, false));
    assert!(should_write(true, true));
}

#[test]
fn apply_summary_names_the_roots() {
    assert_eq!(
        apply_summary(2, 1, &vec!["/p/tags/wy".to_string(), "/p/tags/il".to_string()], "/p/tags"),
        "\n\u{2705} Persisted 2 tagged bill(s) under /p/tags/wy, /p/tags/il; skipped 1 entr(ies)."
    );
    assert_eq!(
        apply_summary(0, 0, &vec![], "/p/tags"),
        "\n\u{2705} Persisted 0 tagged bill(s) under /p/tags; skipped 0 entr(ies)."
    );
}

#[test]
fn hash_text_is_sha256_hex() {
    assert_eq!(
        hash_text("abc"),
        "ba7816bf8f01cfea414140de5dae2223b00361a396177a9cb410ff61f20015ad"
    );
    assert_eq!(hash_text("").len(), 64);
}

#[test]
fn fresh_tag_file_metadata_is_stamped() {
    let mut m = TagFileMetadata::fresh("2025-01-01T00:00:00+00:00", "abc");
    assert_eq!(m.model, "fastclass");
    assert_eq!(m.tag_config_hash, hash_text("abc"));
    m.touch("2025-02-02T00:00:00+00:00");
    assert_eq!(m.last_run, "2025-02-02T00:00:00+00:00");
    assert_eq!(m.tag_config_hash, hash_text("abc"));
}
