use govbot::error::Error;
use govbot::gitops::{
    cache_key, check_fetch, clone_action, default_branch, fetch_refspecs, head_needs_set, head_ref,
    is_recoverable_pull_error, local_branch_name, merge_step, pull_action, tracked_branch,
    PullOutcome,
};
use govbot::load::{duckdb_script, repos_dir};
use govbot::pull::{action_emoji, position, process_single_dataset, pull_summary, result_line};
use govbot::registry::{DatasetEntry, ResolvedDataset};
use govbot::repos::{
    broken_dataset_entries, delete_line, delete_status, delete_summary, delete_targets, jobs,
    local_datasets, pad, DeleteStatus,
};

fn strings(v: &[&str]) -> Vec<String> {
    v.iter().map(|s| s.to_string()).collect()
}

fn wy() -> ResolvedDataset {
    ResolvedDataset {
        id: "us-legislation/wy".to_string(),
        channel: None,
        entry: DatasetEntry {
            git_url: "https://example.com/wy-legislation.git".to_string(),
            schema: None,
            path_pattern: None,
            name: None,
        },
    }
}

#[test]
fn local_datasets_are_sorted_short_names() {
    let names = strings(&["wy-legislation", "il-legislation", "notes", "ak-data-pipeline", "x-legislation"]);
    let dirs = vec![true, true, true, true, false];
    assert_eq!(local_datasets(&names, &dirs, "-legislation"), strings(&["ak", "il", "wy"]));
}

#[test]
fn broken_entries_are_dataset_names_that_are_not_dirs() {
    let names = strings(&["wy-legislation", "zz-legislation", "notes", "aa-data-pipeline"]);
    let dirs = vec![true, false, false, false];
    assert_eq!(
        broken_dataset_entries(&names, &dirs, "-legislation"),
        strings(&["aa-data-pipeline", "zz-legislation"])
    );
}

#[test]
fn jobs_come_from_flag_then_env_then_four() {
    assert_eq!(jobs(Some(2), Some("8")), 2);
    assert_eq!(jobs(None, Some("8")), 8);
    assert_eq!(jobs(None, Some("many")), 4);
    assert_eq!(jobs(None, None), 4);
}

#[test]
fn delete_targets_expand_all_and_shorten_ids() {
    let local = strings(&["il", "wy"]);
    assert_eq!(
        delete_targets(&strings(&[" ALL ", "us-legislation/TX@dev", "", "nv"]), &local),
        strings(&["il", "wy", "tx", "nv"])
    );
}

#[test]
fn delete_reports_each_dataset() {
    assert!(matches!(delete_status(true, Ok(())), DeleteStatus::Deleted));
    assert!(matches!(delete_status(false, Ok(())), DeleteStatus::NotFound));
    let failed = delete_status(true, Err(Error::Config("busy".to_string())));
    assert_eq!(delete_line("wy", &failed), "wy    failed     busy");
    assert_eq!(delete_line("wy", &DeleteStatus::Deleted), "wy    deleted");
    assert_eq!(delete_line("texas", &DeleteStatus::NotFound), "texas  not_found");
    assert_eq!(delete_summary(1, 1, 2), "\n\u{274c} Errors occurred: 1/2");
    assert_eq!(delete_summary(2, 0, 2), "\n\u{2705} Successfully deleted 2 repositories!");
    assert_eq!(delete_summary(0, 0, 1), "\n\u{2705} No repositories found to delete.");
}

#[test]
fn pad_left_aligns() {
    assert_eq!(pad("ab", 4), "ab  ");
    assert_eq!(pad("abcdef", 4), "abcdef");
}

#[test]
fn branch_decisions_follow_the_remote() {
    assert_eq!(local_branch_name(Some("refs/heads/dev")).ok().as_deref(), Some("dev"));
    assert!(local_branch_name(Some("HEAD")).is_err());
    assert!(local_branch_name(None).is_err());
    assert_eq!(
        fetch_refspecs("dev"),
        strings(&[
            "refs/heads/dev:refs/remotes/origin/dev",
            "refs/heads/main:refs/remotes/origin/main",
            "refs/heads/master:refs/remotes/origin/master",
        ])
    );
    assert!(check_fetch(true, false).is_err());
    assert!(check_fetch(true, true).is_ok());
    let t = tracked_branch("dev", false, true, true).ok().unwrap();
    assert_eq!((t.remote.as_str(), t.local.as_str(), t.switch), ("origin/main", "main", true));
    let t = tracked_branch("dev", true, true, true).ok().unwrap();
    assert_eq!((t.remote.as_str(), t.switch), ("origin/dev", false));
    assert!(tracked_branch("dev", false, false, false).is_err());
}

#[test]
fn merge_and_default_branch_decisions() {
    assert_eq!(merge_step(true, true).ok(), Some(false));
    assert_eq!(merge_step(false, true).ok(), Some(true));
    assert!(merge_step(false, false).is_err());
    let d = default_branch(false, false, true, true).ok().unwrap();
    assert_eq!((d.name, d.from_remote), ("main", Some("origin/main")));
    assert!(default_branch(false, false, false, false).is_err());
    assert!(head_needs_set(Some("refs/heads/master"), "main"));
    assert!(!head_needs_set(Some("refs/heads/main"), "main"));
    assert_eq!(head_ref("main"), "refs/heads/main");
}

#[test]
fn corrupt_cache_errors_are_recoverable() {
    assert!(is_recoverable_pull_error("Failed to analyze merge: x"));
    assert!(is_recoverable_pull_error("object not found - no match for id"));
    assert!(!is_recoverable_pull_error("network down"));
    assert_eq!(pull_action(true), "pulled");
    assert_eq!(pull_action(false), "no_updates");
    assert_eq!(clone_action(true), "recloned");
    assert_eq!(clone_action(false), "clone");
}

#[test]
fn process_single_dataset_reports_sizes_and_pins() {
    let ok = process_single_dataset(
        &wy(),
        Ok(PullOutcome { action: "pulled", commit: "abc".to_string(), cache_key: "k".to_string() }),
        "1.0 MB",
        "1.2 MB",
    );
    assert_eq!(ok.locale, "wy");
    assert_eq!(ok.result, action_emoji("pulled"));
    assert_eq!(ok.local_size.as_deref(), Some("1.0 MB"));
    assert_eq!(ok.final_size.as_deref(), Some("1.2 MB"));
    assert_eq!(ok.pin.as_ref().unwrap().commit, "abc");
    assert_eq!(result_line(&ok), "\u{2b07}\u{fe0f}  wy      [1.0 MB -> 1.2 MB]");
    let cloned = process_single_dataset(
        &wy(),
        Ok(PullOutcome { action: "clone", commit: "abc".to_string(), cache_key: "k".to_string() }),
        "0 B",
        "2.0 MB",
    );
    assert_eq!(cloned.size.as_deref(), Some("2.0 MB"));
    let failed = process_single_dataset(&wy(), Err(Error::Config("boom".to_string())), "0 B", "0 B");
    assert_eq!(failed.result, "failed");
    assert!(failed.pin.is_none());
    assert_eq!(result_line(&failed), "\u{274c}  wy      boom");
    assert_eq!(pull_summary(&vec![ok, failed]).as_deref(), Some("\n\u{274c} Errors occurred: 1/2"));
    assert_eq!(pull_summary(&vec![cloned]).as_deref(), Some("\n\u{2705} Successfully processed all 1 datasets!"));
    assert_eq!(pull_summary(&vec![]), None);
    assert_eq!(position(3, 37), "3/37");
}

#[test]
fn repos_dir_prefers_flag_then_env() {
    assert_eq!(repos_dir(Some("/g"), Some("/e"), "/cwd"), "/g/repos");
    assert_eq!(repos_dir(None, Some("/e"), "/cwd"), "/e/repos");
    assert_eq!(repos_dir(None, None, "/cwd"), "/cwd/.govbot/repos");
}

#[test]
fn duckdb_script_sets_defaults() {
    let sql = duckdb_script(None, None, "/r");
    assert!(sql.contains("SET memory_limit='16GB';\nSET threads=4;\n"));
    assert!(sql.contains("FROM read_json_auto('/r/**/bills/*/metadata.json', \n"));
    let sql = duckdb_script(Some("2GB"), Some(8), "/r");
    assert!(sql.contains("SET memory_limit='2GB';\nSET threads=8;\n"));
}

#[test]
fn cache_key_addresses_source_and_channel() {
    assert_eq!(cache_key("wy", "-legislation", "https://x/wy.git", None), "wy-legislation-e2ee306fc1b5");
    assert_eq!(cache_key("wy", "-legislation", "https://x/wy.git", Some("dev")), "wy-legislation-3114e2ca442f");
}
