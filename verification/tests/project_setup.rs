use govbot::anchor::{join_path, legacy_tags_dir, parse_session_anchor, resolve_tags_dir_candidates, tag_name_of_file};
use govbot::config::{Command_, Config, ConfigBuilder, JoinOption, SortOrder};
use govbot::lock::{pin_all, stamp_of_reading, DatasetPin, LockFile};
use govbot::project::{datasets_added, entries_kept, ls_manifest_line, require_manifest_path};
use govbot::source::{fallback_relative_path, log_bill_id_of, walked_relative_path, parse_source_joins, parse_source_limit, relative_log_path, session_log_path_matches, short_dataset_name, source_repo_dirs};
use govbot::wizard::{generate_govbot_yml, update_gitignore, GitignoreUpdate, WizardChoices, WizardSession};

fn strings(v: &[&str]) -> Vec<String> {
    v.iter().map(|s| s.to_string()).collect()
}

#[test]
fn gitignore_update_is_idempotent() {
    let first = match update_gitignore("target/\n") {
        GitignoreUpdate::Append(t, n) => {
            assert_eq!(n, 6);
            t
        }
        _ => panic!("expected entries to be appended"),
    };
    assert!(first.starts_with("target/\n.govbot/\n"));
    assert!(matches!(update_gitignore(&first), GitignoreUpdate::Unchanged));
    let created = match update_gitignore("") {
        GitignoreUpdate::Create(t) => t,
        _ => panic!("expected a fresh file"),
    };
    assert!(matches!(update_gitignore(&created), GitignoreUpdate::Unchanged));
    match update_gitignore("dist/\n  tags/  \n.env") {
        GitignoreUpdate::Append(t, n) => {
            assert_eq!(n, 3);
            assert_eq!(t, "dist/\n  tags/  \n.env\n.govbot/\ndocs/\nstate/\n");
        }
        _ => panic!("expected entries to be appended"),
    }
}

#[test]
fn generated_manifest_lists_the_datasets() {
    let yml = generate_govbot_yml(&strings(&["wy", "il"]), "https://x.org");
    assert!(yml.contains("datasets:\n  - wy\n  - il\n\n"));
    assert!(yml.contains("    base_url: \"https://x.org\"\n"));
    let session = WizardSession::from_choices(&WizardChoices { datasets: strings(&["all"]), base_url: "https://x.org".to_string() });
    assert!(session.govbot_yml.contains("  - all\n"));
    assert!(session.to_snapshot().starts_with("=== Wizard Session ===\n\n"));
}

#[test]
fn lock_pin_reads_back_and_leaves_others() {
    let mut lock = LockFile::default();
    lock.pin("us-legislation/wy", "https://example.com/wy.git", None, "abc123", "wy-legislation-deadbeef");
    lock.pin("us-legislation/il", "https://example.com/il.git", Some("dev"), "def", "il-key");
    let wy = lock.datasets.get("us-legislation/wy").unwrap();
    assert_eq!(wy.commit, "abc123");
    assert_eq!(wy.cache_key, "wy-legislation-deadbeef");
    assert!(wy.resolved_at.ends_with('Z'));
    let il = lock.datasets.get("us-legislation/il").unwrap();
    assert_eq!(il.channel.as_deref(), Some("dev"));
    assert_eq!(LockFile::path_for("/p"), "/p/govbot.lock");
    let pins = vec![
        None,
        Some(DatasetPin {
            canonical_id: "us-legislation/wy".to_string(),
            git_url: "u".to_string(),
            channel: None,
            commit: "new".to_string(),
            cache_key: "k".to_string(),
        }),
    ];
    assert_eq!(pin_all(&mut lock, &pins), 1);
    assert_eq!(lock.datasets.get("us-legislation/wy").unwrap().commit, "new");
    assert_eq!(lock.datasets.get("us-legislation/il").unwrap().commit, "def");
}

#[test]
fn missing_lockfile_is_empty_default() {
    let lock = LockFile::default();
    assert_eq!(lock.datasets.len(), 0);
    assert!(lock.generated_at.ends_with('Z'));
}

#[test]
fn config_builder_validates_join_options() {
    let b = ConfigBuilder::new("/g").join_options_str("bill").ok().unwrap();
    let config = b.build(true, true).ok().unwrap();
    assert!(matches!(config.join_options.as_slice(), [JoinOption::Bill]));
    assert!(ConfigBuilder::new("/g").join_options_str("bill,votes").is_err());
    assert!(Config::new("/g").validate(false, false).is_err());
    assert!(Config::new("/g").validate(true, false).is_err());
    assert!(Config::new("/g").validate(true, true).is_ok());
    assert!(matches!(SortOrder::from_text("asc"), SortOrder::Ascending));
    assert!(matches!(SortOrder::from_text("DESC"), SortOrder::Descending));
}

#[test]
fn commands_split_into_argv() {
    assert_eq!(Command_::Shell("fastclass  classify -".to_string()).argv(), strings(&["fastclass", "classify", "-"]));
    assert_eq!(Command_::Argv(strings(&["a", "b c"])).argv(), strings(&["a", "b c"]));
}

#[test]
fn source_arguments_parse() {
    let (joins, tags) = parse_source_joins("bill.title, tags ,,bill");
    assert!(tags);
    assert_eq!(joins.len(), 2);
    assert_eq!(joins[0].0, "bill");
    assert_eq!(joins[0].1, strings(&["title"]));
    assert_eq!(parse_source_limit("NONE"), Ok(None));
    assert_eq!(parse_source_limit("10"), Ok(Some(10)));
    assert_eq!(parse_source_limit("ten"), Err("ten".to_string()));
    assert_eq!(short_dataset_name("us-legislation/wy@nightly"), "wy");
    assert_eq!(
        source_repo_dirs(&strings(&["wy,il"]), &strings(&["ak"]), true, "-legislation"),
        strings(&["wy-legislation", "il-legislation"])
    );
    assert_eq!(source_repo_dirs(&vec![], &strings(&["ak", "wy"]), true, "-legislation"), strings(&["ak-legislation", "wy-legislation"]));
    assert_eq!(source_repo_dirs(&vec![], &strings(&["ak"]), false, "-legislation"), Vec::<String>::new());
}

#[test]
fn log_paths_are_matched_by_layout() {
    assert_eq!(
        relative_log_path("/r/wy-legislation/country:us/state:wy/sessions/2025/logs/a.json", "/r/wy-legislation").as_deref(),
        Some("country:us/state:wy/sessions/2025/logs/a.json")
    );
    assert!(session_log_path_matches("country:us/state:wy/sessions/2025/logs/a.json"));
    assert!(!session_log_path_matches("country:us/sessions/2025/state:wy/logs/a.json"));
}

#[test]
fn resolve_tags_dir_candidates_prefer_project_tags_then_cache_fallback() {
    let session = "/p/.govbot/repos/wy-legislation/country:us/state:wy/sessions/2025";
    let components = strings(&["", "p", ".govbot", "repos", "wy-legislation", "country:us", "state:wy", "sessions", "2025"]);
    let anchor = parse_session_anchor(session, &components);
    assert!(anchor.is_some());
    let candidates = resolve_tags_dir_candidates(&anchor, "/p");
    assert_eq!(candidates[0], "/p/tags/wy-legislation/country:us/state:wy/sessions/2025");
    assert!(candidates.iter().any(|c| c == &join_path(session, "tags")));
    assert_ne!(candidates[0], join_path(session, "tags"));
}

#[test]
fn resolve_tags_dir_candidates_empty_outside_dataset_layout() {
    assert!(resolve_tags_dir_candidates(&None, "/p").is_empty());
    assert_eq!(tag_name_of_file("budget.tag.json").as_deref(), Some("budget"));
    assert_eq!(tag_name_of_file("budget.json").as_deref(), Some("budget"));
    assert_eq!(tag_name_of_file("budget.txt"), None);
    let _ = legacy_tags_dir("/cwd", "wy-legislation/country:us/state:wy/sessions/2025/logs/a.json");
}

#[test]
fn add_and_remove_edit_the_dataset_list() {
    assert_eq!(datasets_added(&strings(&["wy"]), &strings(&["wy", "il", "il"])), strings(&["il"]));
    assert_eq!(
        entries_kept(&vec![Some("wy".to_string()), None, Some("il".to_string())], &strings(&[" il ", ""])),
        vec![true, true, false]
    );
    assert_eq!(ls_manifest_line("wy", &strings(&["wy"])), "  \u{2713} wy");
    assert_eq!(ls_manifest_line("il", &strings(&["wy"])), "  \u{b7} il");
    assert_eq!(ls_manifest_line("all", &vec![]), "  \u{2713} all");
    assert_eq!(require_manifest_path("/p", true).ok().as_deref(), Some("/p/govbot.yml"));
    assert_eq!(
        require_manifest_path("/p", false).err().unwrap().message(),
        "No govbot.yml in /p. Run `govbot init` to scaffold one."
    );
}

#[test]
fn pin_all_later_pins_win_and_stamps_have_whole_seconds() {
    let mut lock = LockFile::default();
    let generated = lock.generated_at.clone();
    let pin = |commit: &str| {
        Some(DatasetPin {
            canonical_id: "us-legislation/wy".to_string(),
            git_url: "u".to_string(),
            channel: Some("dev".to_string()),
            commit: commit.to_string(),
            cache_key: "k".to_string(),
        })
    };
    assert_eq!(pin_all(&mut lock, &vec![pin("first"), None, pin("second")]), 2);
    let wy = lock.datasets.get("us-legislation/wy").unwrap();
    assert_eq!(wy.commit, "second");
    assert_eq!(wy.channel.as_deref(), Some("dev"));
    assert_eq!(lock.generated_at, generated);
    let t = wy.resolved_at.as_bytes();
    assert_eq!(t.len(), 20);
    assert_eq!((t[4], t[7], t[10], t[13], t[16], t[19]), (b'-', b'-', b'T', b':', b':', b'Z'));
}

#[test]
fn wizard_display_shows_the_choices() {
    let s = WizardSession::from_choices(&WizardChoices { datasets: strings(&["il", "ca"]), base_url: "https://x.org".to_string() });
    assert!(s.display.contains("? Base URL for your feeds: https://x.org\n"));
    assert!(s.display.contains("il ca"));
    assert!(!s.display.contains("> All jurisdictions in the registry"));
    let s = WizardSession::from_choices(&WizardChoices { datasets: strings(&["all"]), base_url: "u".to_string() });
    assert!(s.display.contains("> All jurisdictions in the registry"));
}

#[test]
fn gitignore_update_keeps_what_was_there() {
    match update_gitignore("node_modules/\n.env") {
        GitignoreUpdate::Append(text, n) => {
            assert!(text.starts_with("node_modules/\n.env"));
            assert_eq!(n, 5);
            for e in [".govbot/", "dist/", "docs/", "tags/", "state/", ".env"] {
                assert!(text.lines().any(|l| l.trim() == e));
            }
        }
        _ => panic!("expected an append"),
    }
}

#[test]
fn source_paths_are_relative_to_the_govbot_dir() {
    assert_eq!(walked_relative_path("/g/repos/wy-legislation/a/b.json", "/g").as_deref(), Some("repos/wy-legislation/a/b.json"));
    assert_eq!(walked_relative_path("/cache/x.json", "/g"), None);
    assert_eq!(fallback_relative_path("/cache/x.json", "/g", "/g/real/x.json", "/g"), "real/x.json");
    assert_eq!(fallback_relative_path("/cache/x.json", "/g", "rel/x", "/g"), "../cache/x.json");
}

#[test]
fn log_bill_id_prefers_bill_id() {
    let log = govbot::source::read_log(r#"{"bill_identifier":"HB 1"}"#).unwrap().0;
    assert_eq!(log_bill_id_of(&log).as_deref(), Some("HB 1"));
}

#[test]
fn clock_readings_become_stamps() {
    assert_eq!(stamp_of_reading(Some((0, 0))).as_deref(), Some("1970-01-01T00:00:00Z"));
    assert_eq!(stamp_of_reading(Some((1_431_648_000, 5))).as_deref(), Some("2015-05-15T00:00:00Z"));
    assert_eq!(stamp_of_reading(None), None);
    assert_eq!(stamp_of_reading(Some((u64::MAX, 0))), None);
}

#[test]
fn pin_at_records_the_given_time() {
    let mut lock = LockFile::empty_at("2025-01-01T00:00:00Z");
    lock.pin_at("us-legislation/wy", "u", None, "c", "k", "2025-02-03T04:05:06Z");
    assert_eq!(lock.datasets.get("us-legislation/wy").unwrap().resolved_at, "2025-02-03T04:05:06Z");
    lock.refresh_at("2025-03-01T00:00:00Z");
    assert_eq!(lock.generated_at, "2025-03-01T00:00:00Z");
    assert_eq!(lock.datasets.len(), 1);
}
