//! Scaffolding a govbot+fastclass project from a Frankie-style per-topic
//! config: the config's fields, and the text of every file the scaffold
//! writes.
use vstd::prelude::*;
use crate::error::Error;
use crate::publish::{capitalize_word, capitalized};
use crate::smap::StrMap;
use crate::text::{concat3, copy_str, is_blank, replace_all, replace_str, trim, views};
use crate::wizard::TextBuilder;

verus! {

/// A Frankie `topics/<name>/config.yml`, as far as the scaffold reads it.
pub struct FrankieTopicConfig {
    /// The machine-readable topic name; the classifier's single tag.
    pub name: String,
    /// Human-readable display name; a capitalized `name` when absent.
    pub display_name: Option<String>,
    /// Default emoji for the topic.
    pub default_emoji: Option<String>,
    /// The flat keyword list; the tag's `include_keywords`.
    pub keywords: Vec<String>,
    /// Keyword to emoji, in key order.
    pub emoji_map: StrMap<String>,
    /// The digest title; the RSS/HTML publisher title.
    pub digest_title: Option<String>,
    /// The summarizer's topic focus; `name` when absent.
    pub topic: Option<String>,
}

/// The display name: `display_name`, or `name` with its first character
/// upper-cased.
pub open spec fn display_of(c: FrankieTopicConfig) -> Seq<char> {
    match c.display_name {
        Some(d) => d@,
        None => capitalized(c.name@),
    }
}

/// The topic focus: `topic`, or `name`.
pub open spec fn topic_focus_of(c: FrankieTopicConfig) -> Seq<char> {
    match c.topic {
        Some(t) => t@,
        None => c.name@,
    }
}

/// The feed and site title: the digest title, or `<display> Bills Weekly
/// Digest`.
pub open spec fn title_of(c: FrankieTopicConfig) -> Seq<char> {
    match c.digest_title {
        Some(t) => t@,
        None => display_of(c) + " Bills Weekly Digest"@,
    }
}

/// The message for a config whose `name` is blank.
pub open spec fn empty_name_message(path: Seq<char>) -> Seq<char> {
    "Frankie config "@ + path
        + " has empty `name` \u{2014} required to scaffold a classifier tag"@
}

impl FrankieTopicConfig {
    /// Check a parsed config read from `path`: its `name` must not be blank.
    pub fn validate(&self, path: &str) -> (r: Result<(), Error>)
        ensures
            r is Ok <==> trim(self.name@).len() > 0,
            r matches Err(Error::Config(m)) ==> m@ == empty_name_message(path@),
    {
        if is_blank(self.name.as_str()) {
            Err(
                Error::Config(
                    concat3(
                        "Frankie config ",
                        path,
                        " has empty `name` \u{2014} required to scaffold a classifier tag",
                    ),
                ),
            )
        } else {
            Ok(())
        }
    }

    /// The human-readable display name.
    pub fn display(&self) -> (r: String)
        ensures
            r@ == display_of(*self),
    {
        match &self.display_name {
            Some(d) => copy_str(d.as_str()),
            None => capitalize_word(self.name.as_str()),
        }
    }

    /// The summarizer-prompt topic focus.
    pub fn topic_focus(&self) -> (r: String)
        ensures
            r@ == topic_focus_of(*self),
    {
        match &self.topic {
            Some(t) => copy_str(t.as_str()),
            None => copy_str(self.name.as_str()),
        }
    }
}

// ------------------------------------------------------------------
// YAML scalars
// ------------------------------------------------------------------

/// `s` as a double-quoted YAML scalar: `\` and `"` escaped with a
/// backslash.
pub open spec fn yaml_string_spec(s: Seq<char>) -> Seq<char> {
    "\""@ + replace_all(replace_all(s, "\\"@, "\\\\"@), "\""@, "\\\""@) + "\""@
}

/// Quote a YAML scalar conservatively.
pub fn yaml_string(s: &str) -> (r: String)
    ensures
        r@ == yaml_string_spec(s@),
{
    proof {
        reveal_strlit("\\");
        reveal_strlit("\"");
    }
    let a = replace_str(s, "\\", "\\\\");
    let b = replace_str(a.as_str(), "\"", "\\\"");
    concat3("\"", b.as_str(), "\"")
}

// ------------------------------------------------------------------
// govbot.yml
// ------------------------------------------------------------------

/// The scaffolded manifest: every dataset, a fastclass `classify`
/// transform, RSS/HTML/Bluesky publishers selecting the topic's tag, and a
/// `default` pipeline running them all.
pub open spec fn govbot_yml_of(name: Seq<char>, title: Seq<char>) -> Seq<char> {
    "# Govbot manifest \u{2014} scaffolded from a Frankie-style topic config.\n"@
        + "# See README.md for the migration story. Tune the classifier bundle\n"@
        + "# (./classifier) with the fastclass improvement loop, not by hand.\n"@
        + "$schema: https://raw.githubusercontent.com/chihacknight/govbot/main/schemas/govbot.schema.json\n\n"@
        + "datasets:\n"@ + "  - all\n\n"@ + "transforms:\n"@ + "  classify:\n"@
        + "    command: [fastclass, classify, \"-\"]\n"@ + "    reads: docs\n"@
        + "    writes: classification\n"@ + "    classifier: ./classifier\n\n"@ + "publish:\n"@
        + "  feed:\n"@ + "    type: rss\n"@ + "    select: ["@ + name + "]\n"@ + "    title: "@
        + yaml_string_spec(title) + "\n"@
        + "    base_url: \"https://example.org/your-deployment\"\n"@ + "    output_dir: dist\n"@
        + "    output_file: "@ + name + "-feed.xml\n\n"@ + "  site:\n"@ + "    type: html\n"@
        + "    select: ["@ + name + "]\n"@ + "    title: "@ + yaml_string_spec(title) + "\n"@
        + "    base_url: \"https://example.org/your-deployment\"\n"@ + "    output_dir: dist\n\n"@
        + "  bluesky:\n"@ + "    type: bluesky\n"@ + "    select: ["@ + name + "]\n"@
        + "    # Calibrated final_score threshold (0..1). 0.55 is a sensible starting\n"@
        + "    # point per the climate-activist deployment; raise to cut false\n"@
        + "    # positives, lower to widen recall.\n"@ + "    min_score: 0.55\n"@
        + "    base_url: \"https://example.org/your-deployment\"\n"@
        + "    post_template: \"{title}\\n\\n{tags} \u{b7} {link}\"\n"@
        + "    # Credentials are env-only: BLUESKY_HANDLE / BLUESKY_APP_PASSWORD.\n"@
        + "    # Never put them in this file.\n\n"@ + "pipelines:\n"@ + "  default:\n"@
        + "    - classify\n"@ + "    - feed\n"@ + "    - site\n"@ + "    - bluesky\n"@
}

/// The `govbot.yml` of the scaffold.
pub fn render_govbot_yml(config: &FrankieTopicConfig) -> (r: String)
    ensures
        r@ == govbot_yml_of(config.name@, title_of(*config)),
{
    let title = match &config.digest_title {
        Some(t) => copy_str(t.as_str()),
        None => {
            let display = config.display();
            let mut t = TextBuilder::new();
            t.add(display.as_str());
            t.add(" Bills Weekly Digest");
            t.text
        },
    };
    let quoted = yaml_string(title.as_str());
    let name = config.name.as_str();
    let mut y = TextBuilder::new();
    y.add("# Govbot manifest \u{2014} scaffolded from a Frankie-style topic config.\n");
    y.add("# See README.md for the migration story. Tune the classifier bundle\n");
    y.add("# (./classifier) with the fastclass improvement loop, not by hand.\n");
    y.add(
        "$schema: https://raw.githubusercontent.com/chihacknight/govbot/main/schemas/govbot.schema.json\n\n",
    );
    y.add("datasets:\n");
    y.add("  - all\n\n");
    y.add("transforms:\n");
    y.add("  classify:\n");
    y.add("    command: [fastclass, classify, \"-\"]\n");
    y.add("    reads: docs\n");
    y.add("    writes: classification\n");
    y.add("    classifier: ./classifier\n\n");
    y.add("publish:\n");
    y.add("  feed:\n");
    y.add("    type: rss\n");
    y.add("    select: [");
    y.add(name);
    y.add("]\n");
    y.add("    title: ");
    y.add(quoted.as_str());
    y.add("\n");
    y.add("    base_url: \"https://example.org/your-deployment\"\n");
    y.add("    output_dir: dist\n");
    y.add("    output_file: ");
    y.add(name);
    y.add("-feed.xml\n\n");
    y.add("  site:\n");
    y.add("    type: html\n");
    y.add("    select: [");
    y.add(name);
    y.add("]\n");
    y.add("    title: ");
    y.add(quoted.as_str());
    y.add("\n");
    y.add("    base_url: \"https://example.org/your-deployment\"\n");
    y.add("    output_dir: dist\n\n");
    y.add("  bluesky:\n");
    y.add("    type: bluesky\n");
    y.add("    select: [");
    y.add(name);
    y.add("]\n");
    y.add("    # Calibrated final_score threshold (0..1). 0.55 is a sensible starting\n");
    y.add("    # point per the climate-activist deployment; raise to cut false\n");
    y.add("    # positives, lower to widen recall.\n");
    y.add("    min_score: 0.55\n");
    y.add("    base_url: \"https://example.org/your-deployment\"\n");
    y.add("    post_template: \"{title}\\n\\n{tags} \u{b7} {link}\"\n");
    y.add("    # Credentials are env-only: BLUESKY_HANDLE / BLUESKY_APP_PASSWORD.\n");
    y.add("    # Never put them in this file.\n\n");
    y.add("pipelines:\n");
    y.add("  default:\n");
    y.add("    - classify\n");
    y.add("    - feed\n");
    y.add("    - site\n");
    y.add("    - bluesky\n");
    proof {
        assert(y.text@ =~= govbot_yml_of(config.name@, title_of(*config)));
    }
    y.text
}

// ------------------------------------------------------------------
// classifier bundle
// ------------------------------------------------------------------

/// `#   <keyword> → <emoji>` for each emoji-map entry, in key order.
pub open spec fn emoji_lines(m: Seq<(Seq<char>, String)>) -> Seq<char>
    decreases m.len(),
{
    if m.len() == 0 {
        Seq::empty()
    } else {
        emoji_lines(m.drop_last()) + "#   "@ + m.last().0 + " \u{2192} "@ + m.last().1@ + "\n"@
    }
}

/// `      - <quoted keyword>` for each keyword.
pub open spec fn keyword_lines(k: Seq<Seq<char>>) -> Seq<char>
    decreases k.len(),
{
    if k.len() == 0 {
        Seq::empty()
    } else {
        keyword_lines(k.drop_last()) + "      - "@ + yaml_string_spec(k.last()) + "\n"@
    }
}

/// The comment block that carries the emoji map, when it is not empty.
pub open spec fn emoji_block(m: Seq<(Seq<char>, String)>) -> Seq<char> {
    if m.len() == 0 {
        Seq::empty()
    } else {
        "#\n"@
            + "# Frankie emoji_map (kept here for reference \u{2014} fold into a post template\n"@
            + "# later if you want per-subdomain emoji in Bluesky posts):\n"@ + emoji_lines(m)
    }
}

/// `classifier/classifier.yml`: one tag named after the topic whose
/// `include_keywords` are the Frankie keywords, verbatim and in order.
pub open spec fn classifier_yml_of(
    name: Seq<char>,
    display: Seq<char>,
    focus: Seq<char>,
    emoji: Seq<(Seq<char>, String)>,
    keywords: Seq<Seq<char>>,
) -> Seq<char> {
    "# classifier.yml \u{2014} the taxonomy for this govbot+fastclass project.\n"@ + "#\n"@
        + "# Scaffolded from a Frankie-style topic config. The single tag below\n"@
        + "# carries the keyword list from that config verbatim; everything else\n"@
        + "# (exclude gates, regex, examples, HyDE queries, subjects) is yours\n"@
        + "# to grow via the /fastclass:improve loop. Never hand-tune by guessing;\n"@
        + "# every change should be proved against the frozen gold set in\n"@
        + "# eval/constitution.yml.\n"@ + emoji_block(emoji) + "tags:\n"@ + "  "@ + name + ":\n"@
        + "    description: >-\n      Bills about "@ + focus
        + " \u{2014} scaffolded from the Frankie topic\n      config for \""@ + display
        + "\". Refine this description as the tag evolves.\n"@ + "    include_keywords:\n"@
        + keyword_lines(keywords)
        + "    # examples are intentionally empty \u{2014} add real labeled bills via\n"@
        + "    # /fastclass:from-intent or by curating eval/constitution.yml.\n"@
        + "    examples: []\n"@ + "    threshold: 0.3\n"@
}

fn add_emoji_block(y: &mut TextBuilder, m: &StrMap<String>)
    ensures
        final(y).text@ == old(y).text@ + emoji_block(m.contents()),
{
    let n = m.len();
    if n == 0 {
        proof {
            assert(old(y).text@ + emoji_block(m.contents()) =~= old(y).text@);
        }
        return;
    }
    let ghost c = m.contents();
    y.add("#\n");
    y.add("# Frankie emoji_map (kept here for reference \u{2014} fold into a post template\n");
    y.add("# later if you want per-subdomain emoji in Bluesky posts):\n");
    let ghost y0 = y.text@;
    let mut i: usize = 0;
    proof {
        assert(c.take(0) =~= Seq::<(Seq<char>, String)>::empty());
        assert(y.text@ =~= y0 + emoji_lines(c.take(0)));
    }
    while i < n
        invariant
            i <= n,
            n == c.len(),
            c == m.contents(),
            y.text@ == y0 + emoji_lines(c.take(i as int)),
        decreases n - i,
    {
        let (k, v) = m.entry(i);
        y.add("#   ");
        y.add(k);
        y.add(" \u{2192} ");
        y.add(v.as_str());
        y.add("\n");
        proof {
            assert(c.take(i + 1).drop_last() =~= c.take(i as int));
            assert(c.take(i + 1).last() == c[i as int]);
            assert(y.text@ =~= y0 + emoji_lines(c.take(i + 1)));
        }
        i = i + 1;
    }
    proof {
        assert(c.take(n as int) =~= c);
        assert(y.text@ =~= old(y).text@ + emoji_block(m.contents()));
    }
}

fn add_keyword_lines(y: &mut TextBuilder, keywords: &Vec<String>)
    ensures
        final(y).text@ == old(y).text@ + keyword_lines(views(keywords@)),
{
    let ghost kv = views(keywords@);
    let ghost y0 = y.text@;
    let mut i: usize = 0;
    proof {
        assert(kv.take(0) =~= Seq::<Seq<char>>::empty());
        assert(y.text@ =~= y0 + keyword_lines(kv.take(0)));
    }
    while i < keywords.len()
        invariant
            i <= keywords.len(),
            kv == views(keywords@),
            y0 == old(y).text@,
            y.text@ == y0 + keyword_lines(kv.take(i as int)),
        decreases keywords.len() - i,
    {
        let q = yaml_string(keywords[i].as_str());
        y.add("      - ");
        y.add(q.as_str());
        y.add("\n");
        proof {
            assert(kv.take(i + 1).drop_last() =~= kv.take(i as int));
            assert(kv.take(i + 1).last() == keywords@[i as int]@);
            assert(y.text@ =~= y0 + keyword_lines(kv.take(i + 1)));
        }
        i = i + 1;
    }
    proof {
        assert(kv.take(keywords.len() as int) =~= kv);
    }
}

/// The `classifier/classifier.yml` of the scaffold.
pub fn render_classifier_yml(config: &FrankieTopicConfig) -> (r: String)
    ensures
        r@ == classifier_yml_of(
            config.name@,
            display_of(*config),
            topic_focus_of(*config),
            config.emoji_map.contents(),
            views(config.keywords@),
        ),
{
    let display = config.display();
    let focus = config.topic_focus();
    let mut y = TextBuilder::new();
    y.add("# classifier.yml \u{2014} the taxonomy for this govbot+fastclass project.\n");
    y.add("#\n");
    y.add("# Scaffolded from a Frankie-style topic config. The single tag below\n");
    y.add("# carries the keyword list from that config verbatim; everything else\n");
    y.add("# (exclude gates, regex, examples, HyDE queries, subjects) is yours\n");
    y.add("# to grow via the /fastclass:improve loop. Never hand-tune by guessing;\n");
    y.add("# every change should be proved against the frozen gold set in\n");
    y.add("# eval/constitution.yml.\n");
    let ghost head = y.text@;
    add_emoji_block(&mut y, &config.emoji_map);
    y.add("tags:\n");
    y.add("  ");
    y.add(config.name.as_str());
    y.add(":\n");
    y.add("    description: >-\n      Bills about ");
    y.add(focus.as_str());
    y.add(" \u{2014} scaffolded from the Frankie topic\n      config for \"");
    y.add(display.as_str());
    y.add("\". Refine this description as the tag evolves.\n");
    y.add("    include_keywords:\n");
    add_keyword_lines(&mut y, &config.keywords);
    y.add("    # examples are intentionally empty \u{2014} add real labeled bills via\n");
    y.add("    # /fastclass:from-intent or by curating eval/constitution.yml.\n");
    y.add("    examples: []\n");
    y.add("    threshold: 0.3\n");
    proof {
        assert(y.text@ =~= classifier_yml_of(
            config.name@,
            display_of(*config),
            topic_focus_of(*config),
            config.emoji_map.contents(),
            views(config.keywords@),
        ));
    }
    y.text
}

/// `classifier/fusion.yml`: the portable `models:` block (encoder and
/// reranker), matcher weights, the uncertainty band and the splitters.
pub open spec fn fusion_yml_spec() -> Seq<char> {
    "# fusion.yml \u{2014} global fusion config for the classifier bundle.\n# Owned by fastclass. Per-tag overrides live INLINE in classifier.yml.\nversion: fusion-v1\n\n# Portable model declaration. Run `fastclass model fetch --bundle ./classifier`\n# to install these into the shared ~/.govbot/models/<sha>/ cache.\nmodels:\n  encoder: sentence-transformers/all-MiniLM-L6-v2\n  reranker: cross-encoder/ms-marco-MiniLM-L-6-v2\n\n# Default fusion weight per matcher kind, applied to any tag that does not\n# declare its own inline `fusion_weights`.\nweights:\n  keyword: 1.0\n  regex: 0.8\n\n# Cascade uncertainty band. Documents whose fused score lands inside\n# [low, high] are the uncertain ones the improvement loop focuses on.\nuncertainty_band:\n  low: 0.3\n  high: 0.7\n\nsplitters:\n  default:\n    strategy: whole\n  sections:\n    strategy: sections\n    aggregation: max\n"@
}

/// The `classifier/fusion.yml` of the scaffold.
pub fn render_fusion_yml() -> (r: String)
    ensures
        r@ == fusion_yml_spec(),
{
    copy_str(
        "# fusion.yml \u{2014} global fusion config for the classifier bundle.\n# Owned by fastclass. Per-tag overrides live INLINE in classifier.yml.\nversion: fusion-v1\n\n# Portable model declaration. Run `fastclass model fetch --bundle ./classifier`\n# to install these into the shared ~/.govbot/models/<sha>/ cache.\nmodels:\n  encoder: sentence-transformers/all-MiniLM-L6-v2\n  reranker: cross-encoder/ms-marco-MiniLM-L-6-v2\n\n# Default fusion weight per matcher kind, applied to any tag that does not\n# declare its own inline `fusion_weights`.\nweights:\n  keyword: 1.0\n  regex: 0.8\n\n# Cascade uncertainty band. Documents whose fused score lands inside\n# [low, high] are the uncertain ones the improvement loop focuses on.\nuncertainty_band:\n  low: 0.3\n  high: 0.7\n\nsplitters:\n  default:\n    strategy: whole\n  sections:\n    strategy: sections\n    aggregation: max\n",
    )
}

/// `classifier/eval/constitution.yml`: a positive and a negative
/// placeholder item for the topic's tag.
pub open spec fn constitution_yml_of(name: Seq<char>, focus: Seq<char>) -> Seq<char> {
    "# constitution.yml \u{2014} the FROZEN gold standard for this classifier.\n"@
        + "# Never shown to an LLM. The items below are PLACEHOLDERS \u{2014} replace them\n"@
        + "# with real labeled bills (use /fastclass:seed-gold ./classifier) before\n"@
        + "# relying on the improvement loop's judgement.\n"@ + "items:\n"@
        + "  - id: placeholder-"@ + name + "-positive\n"@ + "    text: >-\n"@
        + "      PLACEHOLDER \u{2014} replace with a real "@ + focus
        + " bill the classifier should\n      tag (positive example).\n"@
        + "    expected_tags: ["@ + name + "]\n"@ + "  - id: placeholder-"@ + name
        + "-negative\n"@ + "    text: >-\n"@
        + "      PLACEHOLDER \u{2014} replace with a real bill that should NOT be tagged\n      "@
        + name + " (negative example used to gate false-positives).\n"@
        + "    expected_tags: []\n"@
}

/// The `classifier/eval/constitution.yml` of the scaffold.
pub fn render_constitution_yml(config: &FrankieTopicConfig) -> (r: String)
    ensures
        r@ == constitution_yml_of(config.name@, topic_focus_of(*config)),
{
    let focus = config.topic_focus();
    let name = config.name.as_str();
    let mut y = TextBuilder::new();
    y.add("# constitution.yml \u{2014} the FROZEN gold standard for this classifier.\n");
    y.add("# Never shown to an LLM. The items below are PLACEHOLDERS \u{2014} replace them\n");
    y.add("# with real labeled bills (use /fastclass:seed-gold ./classifier) before\n");
    y.add("# relying on the improvement loop's judgement.\n");
    y.add("items:\n");
    y.add("  - id: placeholder-");
    y.add(name);
    y.add("-positive\n");
    y.add("    text: >-\n");
    y.add("      PLACEHOLDER \u{2014} replace with a real ");
    y.add(focus.as_str());
    y.add(" bill the classifier should\n      tag (positive example).\n");
    y.add("    expected_tags: [");
    y.add(name);
    y.add("]\n");
    y.add("  - id: placeholder-");
    y.add(name);
    y.add("-negative\n");
    y.add("    text: >-\n");
    y.add("      PLACEHOLDER \u{2014} replace with a real bill that should NOT be tagged\n      ");
    y.add(name);
    y.add(" (negative example used to gate false-positives).\n");
    y.add("    expected_tags: []\n");
    proof {
        assert(y.text@ =~= constitution_yml_of(config.name@, topic_focus_of(*config)));
    }
    y.text
}

/// `classifier/eval/rolling.yml`: an empty working eval set.
pub open spec fn rolling_yml_spec() -> Seq<char> {
    "# rolling.yml \u{2014} the refreshable working eval set.\n# The improvement loop adds failing bills here and proves fixes against\n# the (unseen) constitution. Empty today \u{2014} start by labeling a handful\n# of bills from `govbot source --select docs` you disagree with.\nitems: []\n"@
}

/// The `classifier/eval/rolling.yml` of the scaffold.
pub fn render_rolling_yml() -> (r: String)
    ensures
        r@ == rolling_yml_spec(),
{
    copy_str(
        "# rolling.yml \u{2014} the refreshable working eval set.\n# The improvement loop adds failing bills here and proves fixes against\n# the (unseen) constitution. Empty today \u{2014} start by labeling a handful\n# of bills from `govbot source --select docs` you disagree with.\nitems: []\n",
    )
}

// ------------------------------------------------------------------
// summarizer prompt, README, .gitignore
// ------------------------------------------------------------------

/// `summarizer/prompt.md`: a one-sentence neutral summary prompt focused on
/// the topic.
pub open spec fn summarizer_prompt_of(display: Seq<char>, focus: Seq<char>) -> Seq<char> {
    "# "@ + display + " summarizer prompt (stub)\n\n"@
        + "Describe this bill in one neutral sentence, focused on "@ + focus + " policy.\n"@
        + "Avoid editorial language; let the bill text speak for itself. A future `summarize` transform will read this prompt \u{2014} today it is a\nplaceholder for the migrating maintainer to refine.\n"@
}

/// The `summarizer/prompt.md` of the scaffold.
pub fn render_summarizer_prompt(config: &FrankieTopicConfig) -> (r: String)
    ensures
        r@ == summarizer_prompt_of(display_of(*config), topic_focus_of(*config)),
{
    let display = config.display();
    let focus = config.topic_focus();
    let mut s = TextBuilder::new();
    s.add("# ");
    s.add(display.as_str());
    s.add(" summarizer prompt (stub)\n\n");
    s.add("Describe this bill in one neutral sentence, focused on ");
    s.add(focus.as_str());
    s.add(" policy.\n");
    s.add(
        "Avoid editorial language; let the bill text speak for itself. A future `summarize` transform will read this prompt \u{2014} today it is a\nplaceholder for the migrating maintainer to refine.\n",
    );
    proof {
        assert(s.text@ =~= summarizer_prompt_of(display_of(*config), topic_focus_of(*config)));
    }
    s.text
}

/// The emoji shown in the README header: `default_emoji`, or nothing.
pub open spec fn emoji_of(c: FrankieTopicConfig) -> Seq<char> {
    match c.default_emoji {
        Some(e) => e@,
        None => Seq::empty(),
    }
}

/// `README.md`: what was generated and the next steps.
pub open spec fn readme_of(
    emoji: Seq<char>,
    display: Seq<char>,
    name: Seq<char>,
    focus: Seq<char>,
) -> Seq<char> {
    "# "@ + emoji + " "@ + display + " govbot deployment\n\n"@
        + "This is a govbot+fastclass project scaffolded **from a Frankie-style\ntopic config**. The Frankie keyword list became your starter classifier;\neverything else is yours to refine.\n\n"@
        + "## What was generated\n\n"@
        + "- `govbot.yml` \u{2014} the project manifest (datasets, transforms, publishers).\n"@
        + "- `classifier/` \u{2014} a fastclass bundle with one tag (`"@ + name
        + "`) carrying the\n  Frankie keyword list as `include_keywords`.\n"@
        + "- `classifier/eval/constitution.yml` \u{2014} **placeholder** gold items;\n"@
        + "  replace before relying on the improvement loop's judgement.\n"@
        + "- `summarizer/prompt.md` \u{2014} stub for the future `summarize` transform.\n\n"@
        + "## What to do next\n\n"@ + "1. Install the Tier-2 semantic model:\n"@
        + "   ```\n   fastclass model fetch --bundle ./classifier\n   ```\n"@
        + "2. Replace the placeholder constitution items with real labeled examples:\n"@
        + "   ```\n   /fastclass:seed-gold ./classifier\n   ```\n"@ + "3. Try classifying:\n"@
        + "   ```\n   govbot run --dry-run\n   ```\n"@
        + "4. Iterate quality via the improvement loop:\n"@
        + "   ```\n   /fastclass:improve autonomous\n   ```\n"@
        + "5. Set Bluesky credentials (env-only \u{2014} never in `govbot.yml`):\n"@
        + "   ```\n   export BLUESKY_HANDLE=...\n   export BLUESKY_APP_PASSWORD=...\n   ```\n\n"@
        + "## Topic focus\n\n`"@ + focus
        + "` \u{2014} used by the summarizer prompt and the tag\ndescription. Adjust as your editorial scope sharpens.\n"@
}

/// The `README.md` of the scaffold.
pub fn render_readme(config: &FrankieTopicConfig) -> (r: String)
    ensures
        r@ == readme_of(
            emoji_of(*config),
            display_of(*config),
            config.name@,
            topic_focus_of(*config),
        ),
{
    let display = config.display();
    let focus = config.topic_focus();
    let mut s = TextBuilder::new();
    s.add("# ");
    match &config.default_emoji {
        Some(e) => s.add(e.as_str()),
        None => s.add(""),
    }
    s.add(" ");
    s.add(display.as_str());
    s.add(" govbot deployment\n\n");
    s.add(
        "This is a govbot+fastclass project scaffolded **from a Frankie-style\ntopic config**. The Frankie keyword list became your starter classifier;\neverything else is yours to refine.\n\n",
    );
    s.add("## What was generated\n\n");
    s.add("- `govbot.yml` \u{2014} the project manifest (datasets, transforms, publishers).\n");
    s.add("- `classifier/` \u{2014} a fastclass bundle with one tag (`");
    s.add(config.name.as_str());
    s.add("`) carrying the\n  Frankie keyword list as `include_keywords`.\n");
    s.add("- `classifier/eval/constitution.yml` \u{2014} **placeholder** gold items;\n");
    s.add("  replace before relying on the improvement loop's judgement.\n");
    s.add("- `summarizer/prompt.md` \u{2014} stub for the future `summarize` transform.\n\n");
    s.add("## What to do next\n\n");
    s.add("1. Install the Tier-2 semantic model:\n");
    s.add("   ```\n   fastclass model fetch --bundle ./classifier\n   ```\n");
    s.add("2. Replace the placeholder constitution items with real labeled examples:\n");
    s.add("   ```\n   /fastclass:seed-gold ./classifier\n   ```\n");
    s.add("3. Try classifying:\n");
    s.add("   ```\n   govbot run --dry-run\n   ```\n");
    s.add("4. Iterate quality via the improvement loop:\n");
    s.add("   ```\n   /fastclass:improve autonomous\n   ```\n");
    s.add("5. Set Bluesky credentials (env-only \u{2014} never in `govbot.yml`):\n");
    s.add("   ```\n   export BLUESKY_HANDLE=...\n   export BLUESKY_APP_PASSWORD=...\n   ```\n\n");
    s.add("## Topic focus\n\n`");
    s.add(focus.as_str());
    s.add(
        "` \u{2014} used by the summarizer prompt and the tag\ndescription. Adjust as your editorial scope sharpens.\n",
    );
    proof {
        assert(""@ =~= Seq::<char>::empty()) by {
            reveal_strlit("");
        }
        assert(s.text@ =~= readme_of(
            emoji_of(*config),
            display_of(*config),
            config.name@,
            topic_focus_of(*config),
        ));
    }
    s.text
}

/// The scaffold's `.gitignore`: generated output, publisher state,
/// lockfiles, model artifacts and `.env`.
pub open spec fn gitignore_spec() -> Seq<char> {
    "# govbot \u{2014} generated, reconstructed on every run\n.govbot/\ndist/\ndocs/\n# Classification output from `govbot apply` \u{2014} regenerated each run.\ntags/\n# Publisher state \u{2014} append-only ledgers.\nstate/\n# fastclass / govbot lockfiles\nfastclass.lock\ngovbot.lock\n# Bundled model artifacts (resolved by `fastclass model fetch`).\nclassifier/model/\nclassifier/model-rerank/\n\n# Secrets \u{2014} never commit\n.env\n"@
}

/// The `.gitignore` of the scaffold.
pub fn render_gitignore() -> (r: String)
    ensures
        r@ == gitignore_spec(),
{
    copy_str(
        "# govbot \u{2014} generated, reconstructed on every run\n.govbot/\ndist/\ndocs/\n# Classification output from `govbot apply` \u{2014} regenerated each run.\ntags/\n# Publisher state \u{2014} append-only ledgers.\nstate/\n# fastclass / govbot lockfiles\nfastclass.lock\ngovbot.lock\n# Bundled model artifacts (resolved by `fastclass model fetch`).\nclassifier/model/\nclassifier/model-rerank/\n\n# Secrets \u{2014} never commit\n.env\n",
    )
}

// ------------------------------------------------------------------
// The scaffold
// ------------------------------------------------------------------

/// A file of the scaffold: its path relative to the project directory, and
/// its contents.
pub struct ScaffoldFile {
    pub path: String,
    pub contents: String,
}

/// Every file of the scaffold, in the order it is written.
pub open spec fn scaffold_spec(c: FrankieTopicConfig) -> Seq<(Seq<char>, Seq<char>)> {
    seq![
        ("govbot.yml"@, govbot_yml_of(c.name@, title_of(c))),
        (
            "classifier/classifier.yml"@,
            classifier_yml_of(
                c.name@,
                display_of(c),
                topic_focus_of(c),
                c.emoji_map.contents(),
                views(c.keywords@),
            ),
        ),
        ("classifier/fusion.yml"@, fusion_yml_spec()),
        ("classifier/eval/constitution.yml"@, constitution_yml_of(c.name@, topic_focus_of(c))),
        ("classifier/eval/rolling.yml"@, rolling_yml_spec()),
        ("classifier/proposals/.gitkeep"@, Seq::<char>::empty()),
        ("summarizer/prompt.md"@, summarizer_prompt_of(display_of(c), topic_focus_of(c))),
        ("README.md"@, readme_of(emoji_of(c), display_of(c), c.name@, topic_focus_of(c))),
        (".gitignore"@, gitignore_spec()),
    ]
}

pub open spec fn file_views(files: Seq<ScaffoldFile>) -> Seq<(Seq<char>, Seq<char>)> {
    files.map_values(|f: ScaffoldFile| (f.path@, f.contents@))
}

fn file(path: &str, contents: String) -> (r: ScaffoldFile)
    ensures
        r.path@ == path@,
        r.contents@ == contents@,
{
    ScaffoldFile { path: copy_str(path), contents }
}

/// The files to write for a govbot+fastclass project scaffolded from
/// `config`: the manifest, the classifier bundle (classifier, fusion,
/// constitution, rolling eval set, an empty proposals directory), the
/// summarizer prompt, the README and the `.gitignore`.
pub fn scaffold_files(config: &FrankieTopicConfig) -> (r: Vec<ScaffoldFile>)
    ensures
        file_views(r@) == scaffold_spec(*config),
{
    let mut files: Vec<ScaffoldFile> = Vec::new();
    files.push(file("govbot.yml", render_govbot_yml(config)));
    files.push(file("classifier/classifier.yml", render_classifier_yml(config)));
    files.push(file("classifier/fusion.yml", render_fusion_yml()));
    files.push(file("classifier/eval/constitution.yml", render_constitution_yml(config)));
    files.push(file("classifier/eval/rolling.yml", render_rolling_yml()));
    files.push(file("classifier/proposals/.gitkeep", String::new()));
    files.push(file("summarizer/prompt.md", render_summarizer_prompt(config)));
    files.push(file("README.md", render_readme(config)));
    files.push(file(".gitignore", render_gitignore()));
    proof {
        assert(file_views(files@) =~= scaffold_spec(*config));
    }
    files
}

/// The refusal for a directory that already holds a `govbot.yml`.
pub open spec fn overwrite_message(manifest_path: Seq<char>) -> Seq<char> {
    manifest_path
        + " already exists \u{2014} refusing to overwrite an existing govbot project. Remove it first or scaffold into a different directory with --into <path>."@
}

/// The pre-flight guard: scaffolding proceeds only where no `govbot.yml`
/// exists yet.
pub fn scaffold_guard(manifest_exists: bool, manifest_path: &str) -> (r: Result<(), Error>)
    ensures
        r is Ok <==> !manifest_exists,
        r matches Err(Error::Config(m)) ==> m@ == overwrite_message(manifest_path@),
{
    if manifest_exists {
        let mut m = TextBuilder::new();
        m.add(manifest_path);
        m.add(
            " already exists \u{2014} refusing to overwrite an existing govbot project. Remove it first or scaffold into a different directory with --into <path>.",
        );
        Err(Error::Config(m.text))
    } else {
        Ok(())
    }
}

/// The next steps printed after a successful scaffold.
pub open spec fn next_steps_of(into: Seq<char>, from_config: Seq<char>) -> Seq<char> {
    "\u{2713} Scaffolded govbot+fastclass project at "@ + into + ".\n"@ + "\n"@
        + "This project was created from "@ + from_config + ". The keyword list became\n"@
        + "your starter classifier; everything else is yours to refine.\n"@ + "\n"@
        + "Recommended next steps:\n"@ + "\n"@
        + "  1. Install the Tier-2 semantic model so embedding matchers fire:\n"@
        + "     fastclass model fetch --bundle ./classifier\n"@ + "\n"@
        + "  2. Replace the placeholder constitution items with real labeled examples:\n"@
        + "     /fastclass:seed-gold ./classifier\n"@ + "\n"@ + "  3. Try classifying:\n"@
        + "     govbot run --dry-run\n"@ + "\n"@
        + "  4. Iterate quality via the improvement loop:\n"@
        + "     /fastclass:improve autonomous\n"@ + "\n"@
        + "  5. Set Bluesky credentials (env-only \u{2014} never in govbot.yml):\n"@
        + "     export BLUESKY_HANDLE=...\n"@ + "     export BLUESKY_APP_PASSWORD=...\n"@
}

/// The activist-facing next steps after scaffolding into `into` from the
/// config at `from_config`.
pub fn next_steps(into: &str, from_config: &str) -> (r: String)
    ensures
        r@ == next_steps_of(into@, from_config@),
{
    let mut s = TextBuilder::new();
    s.add("\u{2713} Scaffolded govbot+fastclass project at ");
    s.add(into);
    s.add(".\n");
    s.add("\n");
    s.add("This project was created from ");
    s.add(from_config);
    s.add(". The keyword list became\n");
    s.add("your starter classifier; everything else is yours to refine.\n");
    s.add("\n");
    s.add("Recommended next steps:\n");
    s.add("\n");
    s.add("  1. Install the Tier-2 semantic model so embedding matchers fire:\n");
    s.add("     fastclass model fetch --bundle ./classifier\n");
    s.add("\n");
    s.add("  2. Replace the placeholder constitution items with real labeled examples:\n");
    s.add("     /fastclass:seed-gold ./classifier\n");
    s.add("\n");
    s.add("  3. Try classifying:\n");
    s.add("     govbot run --dry-run\n");
    s.add("\n");
    s.add("  4. Iterate quality via the improvement loop:\n");
    s.add("     /fastclass:improve autonomous\n");
    s.add("\n");
    s.add("  5. Set Bluesky credentials (env-only \u{2014} never in govbot.yml):\n");
    s.add("     export BLUESKY_HANDLE=...\n");
    s.add("     export BLUESKY_APP_PASSWORD=...\n");
    proof {
        assert(s.text@ =~= next_steps_of(into@, from_config@));
    }
    s.text
}

// ------------------------------------------------------------------
// Laws
// ------------------------------------------------------------------

/// Text with neither a backslash nor a double quote needs no escaping.
pub open spec fn yaml_plain(s: Seq<char>) -> bool {
    forall|i: int| 0 <= i < s.len() ==> #[trigger] s[i] != '\\' && s[i] != '"'
}

proof fn lemma_replace_absent(s: Seq<char>, c: char, rep: Seq<char>)
    requires
        forall|i: int| 0 <= i < s.len() ==> #[trigger] s[i] != c,
    ensures
        replace_all(s, seq![c], rep) == s,
{
    crate::text::lemma_find_props(s, seq![c]);
    if let Some(i) = crate::text::find(s, seq![c]) {
        assert(s[i] == seq![c][0]);
    }
}

/// A plain keyword or title is quoted as is: `"<text>"`.
pub proof fn law_yaml_string_plain(s: Seq<char>)
    requires
        yaml_plain(s),
    ensures
        yaml_string_spec(s) == "\""@ + s + "\""@,
{
    reveal_strlit("\\");
    reveal_strlit("\"");
    assert("\\"@ =~= seq!['\\']);
    assert("\""@ =~= seq!['"']);
    lemma_replace_absent(s, '\\', "\\\\"@);
    lemma_replace_absent(s, '"', "\\\""@);
}

/// The quoted keyword lines of plain keywords.
pub open spec fn plain_keyword_lines(k: Seq<Seq<char>>) -> Seq<char>
    decreases k.len(),
{
    if k.len() == 0 {
        Seq::empty()
    } else {
        plain_keyword_lines(k.drop_last()) + "      - \""@ + k.last() + "\"\n"@
    }
}

/// The classifier's `include_keywords` carry the Frankie keywords verbatim
/// and in order: for plain keywords, one `- "<keyword>"` line each.
pub proof fn law_keywords_verbatim(k: Seq<Seq<char>>)
    requires
        forall|i: int| 0 <= i < k.len() ==> yaml_plain(#[trigger] k[i]),
    ensures
        keyword_lines(k) == plain_keyword_lines(k),
    decreases k.len(),
{
    if k.len() > 0 {
        assert forall|i: int| 0 <= i < k.drop_last().len() implies yaml_plain(
            #[trigger] k.drop_last()[i],
        ) by {
            assert(k.drop_last()[i] == k[i]);
        }
        law_keywords_verbatim(k.drop_last());
        law_yaml_string_plain(k.last());
        reveal_strlit("      - ");
        reveal_strlit("      - \"");
        reveal_strlit("\"\n");
        reveal_strlit("\n");
        reveal_strlit("\"");
        assert(keyword_lines(k) =~= plain_keyword_lines(k));
    }
}

} // verus!
