use govbot::pipeline::{is_local_seed, local_seed_candidates, publish_source_args, seed_dir_name, source_repos_from_manifest};

#[test]
fn source_repos_from_manifest_translates_all_and_scopes() {
    assert_eq!(
        source_repos_from_manifest(&vec!["all".to_string()]),
        Vec::<String>::new(),
        "`[all]` must collapse to empty so --repos is omitted"
    );
    assert_eq!(source_repos_from_manifest(&vec!["wy".to_string()]), vec!["wy".to_string()]);
    assert_eq!(
        source_repos_from_manifest(&vec!["wy".to_string(), "il".to_string()]),
        vec!["wy".to_string(), "il".to_string()]
    );
    assert_eq!(
        source_repos_from_manifest(&vec!["all".to_string(), "wy".to_string()]),
        vec!["all".to_string(), "wy".to_string()],
    );
}

#[test]
fn is_local_seed_detects_populated_dir() {
    assert!(!is_local_seed(&vec![false, false]));
    assert!(is_local_seed(&vec![true, false]));
    assert_eq!(seed_dir_name("us-legislation/wy", "-legislation"), "wy-legislation");
    assert_eq!(
        local_seed_candidates("/r", "wy", "-legislation"),
        vec!["/r/wy-legislation".to_string(), "/r/wy".to_string()]
    );
}

#[test]
fn publish_collects_joined_records_newest_first() {
    let args = publish_source_args(".govbot", &vec![]);
    assert_eq!(
        args,
        vec!["source", "--join", "bill,tags", "--select", "default", "--filter", "default", "--sort", "DESC"]
    );
    let args = publish_source_args("/tmp/g", &vec!["wy".to_string()]);
    assert_eq!(&args[9..], &["--govbot-dir", "/tmp/g", "--repos", "wy"]);
    assert_eq!(publish_source_args("", &vec![]).len(), 9);
}
