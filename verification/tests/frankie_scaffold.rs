use govbot::frankie::{
    next_steps, render_classifier_yml, render_constitution_yml, render_fusion_yml,
    render_gitignore, render_govbot_yml, render_readme, render_rolling_yml,
    render_summarizer_prompt, scaffold_files, scaffold_guard, yaml_string, FrankieTopicConfig,
};
use govbot::smap::StrMap;

fn config(name: &str) -> FrankieTopicConfig {
    FrankieTopicConfig {
        name: name.to_string(),
        display_name: None,
        default_emoji: None,
        keywords: vec![],
        emoji_map: StrMap::new(),
        digest_title: None,
        topic: None,
    }
}

fn housing() -> FrankieTopicConfig {
    let mut emoji = StrMap::new();
    emoji.insert("rent".to_string(), "\u{1f4b5}".to_string());
    emoji.insert("eviction".to_string(), "\u{1f6aa}".to_string());
    FrankieTopicConfig {
        name: "housing".to_string(),
        display_name: Some("Housing".to_string()),
        default_emoji: Some("\u{1f3e0}".to_string()),
        keywords: vec![
            "affordable housing".to_string(),
            "rent control".to_string(),
            "eviction".to_string(),
        ],
        emoji_map: emoji,
        digest_title: Some("\u{1f3e0} Housing Bills Weekly Digest".to_string()),
        topic: Some("housing policy".to_string()),
    }
}

#[test]
fn display_falls_back_to_title_case() {
    let cfg = config("transportation");
    assert_eq!(cfg.display(), "Transportation");
}

#[test]
fn frankie_config_rejects_empty_name() {
    let err = config("").validate("config.yml").err().expect("empty name must be rejected");
    assert!(err.message().contains("empty `name`"));
    assert!(config("   ").validate("config.yml").is_err());
    assert!(config("housing").validate("config.yml").is_ok());
}

#[test]
fn frankie_config_fields_carry_through() {
    let cfg = housing();
    assert_eq!(cfg.display(), "Housing");
    assert_eq!(cfg.topic_focus(), "housing policy");
    assert_eq!(config("transit").topic_focus(), "transit");
}

#[test]
fn yaml_string_escapes_backslashes_and_quotes() {
    assert_eq!(yaml_string("plain"), "\"plain\"");
    assert_eq!(yaml_string("a \"b\" \\ c"), "\"a \\\"b\\\" \\\\ c\"");
}

#[test]
fn govbot_yml_selects_the_topic_everywhere() {
    let yml = render_govbot_yml(&config("transportation"));
    assert!(yml.contains("datasets:\n  - all\n"));
    assert_eq!(yml.matches("    select: [transportation]\n").count(), 3);
    assert!(yml.contains("    title: \"Transportation Bills Weekly Digest\"\n"));
    assert!(yml.contains("    output_file: transportation-feed.xml\n"));
    assert!(yml.ends_with("pipelines:\n  default:\n    - classify\n    - feed\n    - site\n    - bluesky\n"));
}

#[test]
fn classifier_keeps_keywords_verbatim_and_lists_emoji() {
    let yml = render_classifier_yml(&housing());
    assert!(yml.contains(
        "    include_keywords:\n      - \"affordable housing\"\n      - \"rent control\"\n      - \"eviction\"\n"
    ));
    assert!(yml.contains("#   eviction \u{2192} \u{1f6aa}\n#   rent \u{2192} \u{1f4b5}\n"));
    assert!(yml.contains("tags:\n  housing:\n"));
    assert!(yml.contains("Bills about housing policy"));
    assert!(!render_classifier_yml(&config("x")).contains("emoji_map"));
}

#[test]
fn fusion_declares_the_portable_models() {
    let yml = render_fusion_yml();
    assert!(yml.contains("models:\n  encoder: sentence-transformers/all-MiniLM-L6-v2\n  reranker: cross-encoder/ms-marco-MiniLM-L-6-v2\n"));
    assert!(render_rolling_yml().ends_with("items: []\n"));
}

#[test]
fn constitution_has_placeholder_items_for_the_tag() {
    let yml = render_constitution_yml(&config("transit"));
    assert!(yml.contains("  - id: placeholder-transit-positive\n"));
    assert!(yml.contains("  - id: placeholder-transit-negative\n"));
    assert!(yml.contains("    expected_tags: [transit]\n"));
}

#[test]
fn readme_and_prompt_use_display_and_focus() {
    let cfg = housing();
    assert!(render_readme(&cfg).starts_with("# \u{1f3e0} Housing govbot deployment\n\n"));
    assert!(render_summarizer_prompt(&cfg).starts_with("# Housing summarizer prompt (stub)\n\n"));
    assert!(render_summarizer_prompt(&cfg).contains("focused on housing policy policy.\n"));
    assert!(render_gitignore().ends_with("# Secrets \u{2014} never commit\n.env\n"));
}

#[test]
fn scaffold_writes_every_file_once() {
    let files = scaffold_files(&housing());
    let paths: Vec<&str> = files.iter().map(|f| f.path.as_str()).collect();
    assert_eq!(
        paths,
        vec![
            "govbot.yml",
            "classifier/classifier.yml",
            "classifier/fusion.yml",
            "classifier/eval/constitution.yml",
            "classifier/eval/rolling.yml",
            "classifier/proposals/.gitkeep",
            "summarizer/prompt.md",
            "README.md",
            ".gitignore",
        ]
    );
    assert_eq!(files[5].contents, "");
}

#[test]
fn scaffold_refuses_to_overwrite() {
    assert!(scaffold_guard(false, "/x/govbot.yml").is_ok());
    let err = scaffold_guard(true, "/x/govbot.yml").err().unwrap();
    assert!(err.message().starts_with("/x/govbot.yml already exists"));
}

#[test]
fn next_steps_name_both_paths() {
    let text = next_steps("/tmp/p", "topics/housing/config.yml");
    assert!(text.starts_with("\u{2713} Scaffolded govbot+fastclass project at /tmp/p.\n"));
    assert!(text.contains("This project was created from topics/housing/config.yml."));
}
