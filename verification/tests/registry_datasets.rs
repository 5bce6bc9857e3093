use govbot::registry::{default_namespace, registry_cache_path, DatasetEntry, Registry, RegistrySource};
use govbot::smap::StrMap;

fn entry(git_url: &str, name: &str) -> DatasetEntry {
    DatasetEntry {
        git_url: git_url.to_string(),
        schema: Some("ocdfiles".to_string()),
        path_pattern: None,
        name: Some(name.to_string()),
    }
}

/// A registry holding a few of the seed jurisdictions.
fn seed_registry() -> Registry {
    let mut datasets = StrMap::new();
    datasets.insert(
        "us-legislation/wy".to_string(),
        entry("https://github.com/windy-civi-pipelines/wy-legislation.git", "Wyoming"),
    );
    datasets.insert(
        "us-legislation/il".to_string(),
        entry("https://github.com/windy-civi-pipelines/il-legislation.git", "Illinois"),
    );
    datasets.insert(
        "us-legislation/ca".to_string(),
        entry("https://github.com/windy-civi-pipelines/ca-legislation.git", "California"),
    );
    Registry {
        schema_version: Some("1".to_string()),
        description: None,
        default_namespace: default_namespace(),
        datasets,
    }
}

#[test]
fn bare_code_resolves_via_default_namespace() {
    let reg = seed_registry();
    let d = reg.resolve("wy").ok().expect("`wy` must resolve");
    assert_eq!(d.id, "us-legislation/wy");
    assert_eq!(d.short_name(), "wy");
    assert!(d.entry.git_url.contains("wy-legislation"));
}

#[test]
fn canonical_id_and_channel_split() {
    let reg = seed_registry();
    let d = reg.resolve("wy@nightly").ok().unwrap();
    assert_eq!(d.id, "us-legislation/wy");
    assert_eq!(d.channel.as_deref(), Some("nightly"));
}

#[test]
fn namespaced_id_resolves_directly() {
    let reg = seed_registry();
    let d = reg.resolve("us-legislation/il").ok().unwrap();
    assert_eq!(d.id, "us-legislation/il");
}

#[test]
fn unknown_dataset_errors() {
    let reg = seed_registry();
    assert!(reg.resolve("atlantis").is_err());
}

#[test]
fn all_alias_expands_to_every_dataset() {
    let reg = seed_registry();
    let resolved = reg.resolve_all(&["all".to_string()]).ok().unwrap();
    assert_eq!(resolved.len(), reg.datasets.len());
}

#[test]
fn search_matches_id_and_name() {
    let reg = seed_registry();
    assert!(!reg.search("wyoming").is_empty());
    assert!(!reg.search("wy").is_empty());
    assert_eq!(reg.search("").len(), reg.datasets.len());
}

#[test]
fn unknown_dataset_message_points_at_search() {
    let reg = seed_registry();
    let err = reg.resolve("atlantis").err().unwrap();
    assert_eq!(
        err.message(),
        "Unknown dataset 'atlantis'. It is not in the registry. Run `govbot search` to list available datasets."
    );
}

#[test]
fn resolve_all_keeps_order_and_skips_blanks() {
    let reg = seed_registry();
    let resolved = reg
        .resolve_all(&["il".to_string(), "  ".to_string(), "wy@dev".to_string()])
        .ok()
        .unwrap();
    let ids: Vec<&str> = resolved.iter().map(|d| d.id.as_str()).collect();
    assert_eq!(ids, vec!["us-legislation/il", "us-legislation/wy"]);
    assert!(reg.resolve_all(&["wy".to_string(), "nope".to_string()]).is_err());
}

#[test]
fn all_lists_every_dataset_in_id_order() {
    let reg = seed_registry();
    let ids: Vec<String> = reg.all().into_iter().map(|d| d.id).collect();
    assert_eq!(ids, vec!["us-legislation/ca", "us-legislation/il", "us-legislation/wy"]);
}

#[test]
fn registry_source_distinguishes_urls_from_files() {
    assert!(matches!(Registry::from_source("https://x.org/r.json"), RegistrySource::Url(_)));
    assert!(matches!(Registry::from_source("./registry.json"), RegistrySource::File(_)));
}

#[test]
fn registry_cache_lives_under_the_govbot_home() {
    assert_eq!(registry_cache_path(Some("/home/u/.govbot")).as_deref(), Some("/home/u/.govbot/registry.json"));
    assert_eq!(registry_cache_path(None), None);
}

#[test]
fn resolve_all_flat_maps_blanks_all_and_single_ids() {
    let reg = seed_registry();
    let ids = vec!["  ".to_string(), " wy ".to_string(), "ALL".to_string(), "il@dev".to_string()];
    let resolved = reg.resolve_all(&ids).ok().unwrap();
    let got: Vec<&str> = resolved.iter().map(|d| d.id.as_str()).collect();
    assert_eq!(
        got,
        vec!["us-legislation/wy", "us-legislation/ca", "us-legislation/il", "us-legislation/wy", "us-legislation/il"]
    );
    assert_eq!(resolved[4].channel.as_deref(), Some("dev"));
    assert!(reg.resolve_all(&vec!["wy".to_string(), "zz".to_string()]).is_err());
}
