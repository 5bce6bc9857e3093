//! The setup wizard's output: the session text, the generated `govbot.yml`,
//! the GitHub workflow, and the `.gitignore` update.
use vstd::prelude::*;
use crate::text::{
    copy_str, is_ws, join, join_strs, lemma_split_concat_lines, lemma_split_single_line,
    lemma_trim_no_ws, no_newline, split, split_str, str_eq, trim, trim_str, views, free_of,
    occurs_at,
};

verus! {

/// The user's choices.
pub struct WizardChoices {
    /// The datasets the project consumes.
    pub datasets: Vec<String>,
    /// Base URL for the RSS/HTML publishers.
    pub base_url: String,
}

/// A rendered wizard session.
pub struct WizardSession {
    /// The text shown during the wizard.
    pub display: String,
    /// The generated `govbot.yml`.
    pub govbot_yml: String,
    /// The generated GitHub Actions workflow.
    pub workflow_yml: String,
}

/// The concatenation of a list of pieces.
pub open spec fn concat_all(parts: Seq<Seq<char>>) -> Seq<char>
    decreases parts.len(),
{
    if parts.len() == 0 {
        Seq::empty()
    } else {
        concat_all(parts.drop_last()) + parts.last()
    }
}

/// A text built by appending pieces in order.
pub struct TextBuilder {
    pub text: String,
}

impl TextBuilder {
    pub fn new() -> (r: TextBuilder)
        ensures
            r.text@ == Seq::<char>::empty(),
    {
        TextBuilder { text: String::new() }
    }

    pub fn add(&mut self, s: &str)
        ensures
            final(self).text@ == old(self).text@ + s@,
    {
        self.text.append(s);
    }
}

/// The dataset step of the session text.
pub open spec fn datasets_step(datasets: Seq<Seq<char>>) -> Seq<char> {
    if datasets == seq!["all"@] {
        "> All jurisdictions in the registry\n"@ + "  Select specific datasets\n"@
    } else {
        "  All jurisdictions in the registry\n"@ + "> Select specific datasets\n"@ + "\n"@
            + "Browse the registry with `govbot search`.\n"@ + "\n"@
            + "? Enter dataset ids separated by spaces: "@ + join(datasets, " "@) + "\n"@
    }
}

/// The text a wizard session shows for given choices.
pub open spec fn session_display(datasets: Seq<Seq<char>>, base_url: Seq<char>) -> Seq<char> {
    "Welcome to govbot! Let's set up your project.\n\n"@
        + "? What datasets do you want to track?\n"@ + datasets_step(datasets) + "\n"@
        + "Classification is done by fastclass against a classifier bundle.\n"@
        + "Point the manifest's `transforms.classify.classifier` at your\n"@
        + "bundle directory (containing classifier.yml). See the fastclass\n"@
        + "docs to build one.\n\n"@
        + "Publishing is configured for an RSS feed + HTML index by default.\n"@
        + "Both land in the \"docs\" directory (feed.xml + index.html).\n\n"@
        + "? Base URL for your feeds: "@ + base_url + "\n\n"@
        + "  \u{2713} Created govbot.yml\n"@ + "  \u{2713} Created .gitignore\n"@
        + "  \u{2713} Created .github/workflows/build.yml\n\n"@
        + "Setup complete! Run 'govbot' again to start the pipeline.\n"@
}

fn is_all_only(datasets: &Vec<String>) -> (b: bool)
    ensures
        b == (views(datasets@) == seq!["all"@]),
{
    if datasets.len() == 1 && str_eq(datasets[0].as_str(), "all") {
        proof {
            assert(views(datasets@) =~= seq!["all"@]);
        }
        true
    } else {
        proof {
            assert(views(datasets@).len() == datasets@.len());
            if views(datasets@) == seq!["all"@] {
                assert(views(datasets@)[0] == datasets@[0]@);
            }
        }
        false
    }
}

impl WizardSession {
    /// Render a complete session from a set of choices.
    pub fn from_choices(choices: &WizardChoices) -> (r: WizardSession)
        ensures
            r.display@ == session_display(views(choices.datasets@), choices.base_url@),
            r.govbot_yml@ == govbot_yml_spec(views(choices.datasets@), choices.base_url@),
            r.workflow_yml@ == workflow_spec(),
    {
        let mut d = TextBuilder::new();
        d.add("Welcome to govbot! Let's set up your project.\n\n");
        d.add("? What datasets do you want to track?\n");
        let ghost d0 = d.text@;
        if is_all_only(&choices.datasets) {
            d.add("> All jurisdictions in the registry\n");
            d.add("  Select specific datasets\n");
        } else {
            d.add("  All jurisdictions in the registry\n");
            d.add("> Select specific datasets\n");
            d.add("\n");
            d.add("Browse the registry with `govbot search`.\n");
            d.add("\n");
            d.add("? Enter dataset ids separated by spaces: ");
            let joined = join_strs(&choices.datasets, " ");
            d.add(joined.as_str());
            d.add("\n");
        }
        proof {
            assert(d.text@ =~= d0 + datasets_step(views(choices.datasets@)));
        }
        d.add("\n");
        d.add("Classification is done by fastclass against a classifier bundle.\n");
        d.add("Point the manifest's `transforms.classify.classifier` at your\n");
        d.add("bundle directory (containing classifier.yml). See the fastclass\n");
        d.add("docs to build one.\n\n");
        d.add("Publishing is configured for an RSS feed + HTML index by default.\n");
        d.add("Both land in the \"docs\" directory (feed.xml + index.html).\n\n");
        d.add("? Base URL for your feeds: ");
        d.add(choices.base_url.as_str());
        d.add("\n\n");
        d.add("  \u{2713} Created govbot.yml\n");
        d.add("  \u{2713} Created .gitignore\n");
        d.add("  \u{2713} Created .github/workflows/build.yml\n\n");
        d.add("Setup complete! Run 'govbot' again to start the pipeline.\n");
        proof {
            assert(d.text@ =~= session_display(views(choices.datasets@), choices.base_url@));
        }
        let govbot_yml = generate_govbot_yml(&choices.datasets, choices.base_url.as_str());
        let workflow_yml = github_workflow_content();
        WizardSession { display: d.text, govbot_yml, workflow_yml }
    }

    /// The whole session as one text: the session, then each generated
    /// file under a heading.
    pub fn to_snapshot(&self) -> (r: String)
        ensures
            r@ == "=== Wizard Session ===\n\n"@ + self.display@
                + "\n=== Generated: govbot.yml ===\n\n"@ + self.govbot_yml@
                + "\n=== Generated: .github/workflows/build.yml ===\n\n"@ + self.workflow_yml@,
    {
        let mut out = TextBuilder::new();
        out.add("=== Wizard Session ===\n\n");
        out.add(self.display.as_str());
        out.add("\n=== Generated: govbot.yml ===\n\n");
        out.add(self.govbot_yml.as_str());
        out.add("\n=== Generated: .github/workflows/build.yml ===\n\n");
        out.add(self.workflow_yml.as_str());
        out.text
    }
}

/// `  - <id>\n` for each dataset.
pub open spec fn dataset_lines(datasets: Seq<Seq<char>>) -> Seq<char>
    decreases datasets.len(),
{
    if datasets.len() == 0 {
        Seq::empty()
    } else {
        dataset_lines(datasets.drop_last()) + "  - "@ + datasets.last() + "\n"@
    }
}

/// The generated manifest: the datasets, a `classify` transform running
/// fastclass against `./classifier`, an RSS `feed` and an HTML `site`
/// publisher under `docs/` at the base URL, and a `default` pipeline.
pub open spec fn govbot_yml_spec(datasets: Seq<Seq<char>>, base_url: Seq<char>) -> Seq<char> {
    "# Govbot Manifest\n"@
        + "# Schema: https://raw.githubusercontent.com/chihacknight/govbot/main/schemas/govbot.schema.json\n"@
        + "$schema: https://raw.githubusercontent.com/chihacknight/govbot/main/schemas/govbot.schema.json\n\n"@
        + "datasets:\n"@ + dataset_lines(datasets) + "\n"@ + "transforms:\n"@ + "  classify:\n"@
        + "    command: [fastclass, classify, \"-\"]\n"@ + "    reads: docs\n"@
        + "    writes: classification\n"@
        + "    # Path to your fastclass classifier bundle (containing classifier.yml).\n"@
        + "    classifier: ./classifier\n"@ + "\n"@ + "publish:\n"@ + "  feed:\n"@
        + "    type: rss\n"@ + "    base_url: \""@ + base_url + "\"\n"@
        + "    output_dir: \"docs\"\n"@ + "    output_file: \"feed.xml\"\n"@ + "  site:\n"@
        + "    type: html\n"@ + "    base_url: \""@ + base_url + "\"\n"@
        + "    output_dir: \"docs\"\n"@ + "    output_file: \"index.html\"\n"@ + "\n"@
        + "pipelines:\n"@ + "  default:\n"@ + "    - classify\n"@ + "    - feed\n"@
        + "    - site\n"@
}

/// Generate a `govbot.yml` manifest from the wizard's answers (see
/// `govbot_yml_spec`).
pub fn generate_govbot_yml(datasets: &Vec<String>, base_url: &str) -> (r: String)
    ensures
        r@ == govbot_yml_spec(views(datasets@), base_url@),
{
    let mut y = TextBuilder::new();
    y.add("# Govbot Manifest\n");
    y.add(
        "# Schema: https://raw.githubusercontent.com/chihacknight/govbot/main/schemas/govbot.schema.json\n",
    );
    y.add(
        "$schema: https://raw.githubusercontent.com/chihacknight/govbot/main/schemas/govbot.schema.json\n\n",
    );
    y.add("datasets:\n");
    let ghost y0 = y.text@;
    let mut i: usize = 0;
    proof {
        assert(views(datasets@).take(0) =~= Seq::<Seq<char>>::empty());
        assert(y.text@ =~= y0 + dataset_lines(views(datasets@).take(0)));
    }
    while i < datasets.len()
        invariant
            i <= datasets.len(),
            y.text@ == y0 + dataset_lines(views(datasets@).take(i as int)),
        decreases datasets.len() - i,
    {
        y.add("  - ");
        y.add(datasets[i].as_str());
        y.add("\n");
        proof {
            assert(views(datasets@).take(i + 1).drop_last() =~= views(datasets@).take(i as int));
            assert(views(datasets@).take(i + 1).last() == datasets@[i as int]@);
            assert(y.text@ =~= y0 + dataset_lines(views(datasets@).take(i + 1)));
        }
        i = i + 1;
    }
    proof {
        assert(views(datasets@).take(datasets@.len() as int) =~= views(datasets@));
    }
    y.add("\n");
    y.add("transforms:\n");
    y.add("  classify:\n");
    y.add("    command: [fastclass, classify, \"-\"]\n");
    y.add("    reads: docs\n");
    y.add("    writes: classification\n");
    y.add("    # Path to your fastclass classifier bundle (containing classifier.yml).\n");
    y.add("    classifier: ./classifier\n");
    y.add("\n");
    y.add("publish:\n");
    y.add("  feed:\n");
    y.add("    type: rss\n");
    y.add("    base_url: \"");
    y.add(base_url);
    y.add("\"\n");
    y.add("    output_dir: \"docs\"\n");
    y.add("    output_file: \"feed.xml\"\n");
    y.add("  site:\n");
    y.add("    type: html\n");
    y.add("    base_url: \"");
    y.add(base_url);
    y.add("\"\n");
    y.add("    output_dir: \"docs\"\n");
    y.add("    output_file: \"index.html\"\n");
    y.add("\n");
    y.add("pipelines:\n");
    y.add("  default:\n");
    y.add("    - classify\n");
    y.add("    - feed\n");
    y.add("    - site\n");
    proof {
        assert(y.text@ =~= govbot_yml_spec(views(datasets@), base_url@));
    }
    y.text
}

/// The GitHub Actions workflow that runs govbot on push, daily, and on
/// demand.
pub open spec fn workflow_spec() -> Seq<char> {
    "# Run Govbot\n# Runs govbot to pull datasets, apply classifications, and publish feeds.\n\nname: Build Govbot\n\non:\n  push:\n    branches:\n      - main\n      - master\n  schedule:\n    - cron: '0 0 * * *'\n  workflow_dispatch:\n    inputs:\n      limit:\n        description: 'Limit number of entries per artifact (default: 100, use \"none\" for all)'\n        required: false\n        type: string\n\njobs:\n  govbot:\n    runs-on: ubuntu-latest\n\n    steps:\n      - name: Checkout repository\n        uses: actions/checkout@v4\n\n      - name: Run Govbot\n        uses: chihacknight/govbot/actions/govbot@main\n        with:\n          limit: ${{ inputs.limit }}\n"@
}

/// The GitHub Actions workflow file's content.
pub fn github_workflow_content() -> (r: String)
    ensures
        r@ == workflow_spec(),
{
    copy_str(
        "# Run Govbot\n# Runs govbot to pull datasets, apply classifications, and publish feeds.\n\nname: Build Govbot\n\non:\n  push:\n    branches:\n      - main\n      - master\n  schedule:\n    - cron: '0 0 * * *'\n  workflow_dispatch:\n    inputs:\n      limit:\n        description: 'Limit number of entries per artifact (default: 100, use \"none\" for all)'\n        required: false\n        type: string\n\njobs:\n  govbot:\n    runs-on: ubuntu-latest\n\n    steps:\n      - name: Checkout repository\n        uses: actions/checkout@v4\n\n      - name: Run Govbot\n        uses: chihacknight/govbot/actions/govbot@main\n        with:\n          limit: ${{ inputs.limit }}\n",
    )
}

// ------------------------------------------------------------------
// .gitignore
// ------------------------------------------------------------------

/// The block written to a fresh `.gitignore`.
pub open spec fn gitignore_block() -> Seq<char> {
    "# govbot \u{2014} generated, reconstructed on every run\n.govbot/\ndist/\ndocs/\n# Classification output from `govbot apply` \u{2014} regenerated each run.\n# Remove this line if you want classification provenance committed.\ntags/\n# Publisher state \u{2014} append-only ledgers (e.g. bluesky's posted-state).\n# Regenerable-but-operational: deleting it makes the next run double-post.\n# Remove this line to commit post history and let cold clones resume cleanly.\nstate/\n\n# Secrets \u{2014} never commit\n.env\n"@
}

/// The entries of the block (its lines that are neither blank nor
/// comments), in order.
pub open spec fn gitignore_entries() -> Seq<Seq<char>> {
    seq![".govbot/"@, "dist/"@, "docs/"@, "tags/"@, "state/"@, ".env"@]
}

/// True when some line of `s` trims to `e`.
pub open spec fn has_line(s: Seq<char>, e: Seq<char>) -> bool {
    exists|i: int| 0 <= i < split(s, "\n"@).len() && trim(#[trigger] split(s, "\n"@)[i]) == e
}

/// The text after appending the missing entries (each on a line of its
/// own, after a newline when the text does not end in one), and the
/// entries appended.
pub open spec fn gitignore_appended(existing: Seq<char>, entries: Seq<Seq<char>>) -> (
    Seq<char>,
    Seq<Seq<char>>,
)
    decreases entries.len(),
{
    if entries.len() == 0 {
        (existing, Seq::empty())
    } else {
        let (u, added) = gitignore_appended(existing, entries.drop_last());
        let e = entries.last();
        if has_line(existing, e) {
            (u, added)
        } else {
            let u2 = if u.len() > 0 && u.last() != '\n' {
                u.push('\n')
            } else {
                u
            };
            (u2 + e + "\n"@, added.push(e))
        }
    }
}

/// What writing `.gitignore` does.
pub enum GitignoreUpdate {
    /// No `.gitignore` yet (or an empty one): write the whole block.
    Create(String),
    /// Rewrite it with the missing entries appended (how many were).
    Append(String, usize),
    /// It already covers every entry.
    Unchanged,
}

/// The `.gitignore` decision for the current contents (empty when there
/// is no file).
pub open spec fn gitignore_update_spec(existing: Seq<char>) -> (Option<Seq<char>>, nat) {
    if existing.len() == 0 {
        (Some(gitignore_block()), 0)
    } else {
        let (u, added) = gitignore_appended(existing, gitignore_entries());
        if added.len() > 0 {
            (Some(u), added.len())
        } else {
            (None, 0)
        }
    }
}

pub open spec fn update_view(u: GitignoreUpdate) -> (Option<Seq<char>>, nat) {
    match u {
        GitignoreUpdate::Create(t) => (Some(t@), 0),
        GitignoreUpdate::Append(t, n) => (Some(t@), n as nat),
        GitignoreUpdate::Unchanged => (None, 0),
    }
}

fn has_line_exec(lines: &Vec<String>, e: &str) -> (b: bool)
    ensures
        b == exists|i: int| 0 <= i < lines@.len() && trim(#[trigger] lines@[i]@) == e@,
{
    let mut i: usize = 0;
    while i < lines.len()
        invariant
            i <= lines.len(),
            forall|j: int| 0 <= j < i ==> trim(#[trigger] lines@[j]@) != e@,
        decreases lines.len() - i,
    {
        let t = trim_str(lines[i].as_str());
        if str_eq(t.as_str(), e) {
            return true;
        }
        i = i + 1;
    }
    false
}

/// Decide how `.gitignore` is written (see `gitignore_update_spec`):
/// only entries not already present are added, so running it again
/// changes nothing.
pub fn update_gitignore(existing: &str) -> (r: GitignoreUpdate)
    ensures
        update_view(r) == gitignore_update_spec(existing@),
{
    if existing.unicode_len() == 0 {
        return GitignoreUpdate::Create(
            copy_str(
                "# govbot \u{2014} generated, reconstructed on every run\n.govbot/\ndist/\ndocs/\n# Classification output from `govbot apply` \u{2014} regenerated each run.\n# Remove this line if you want classification provenance committed.\ntags/\n# Publisher state \u{2014} append-only ledgers (e.g. bluesky's posted-state).\n# Regenerable-but-operational: deleting it makes the next run double-post.\n# Remove this line to commit post history and let cold clones resume cleanly.\nstate/\n\n# Secrets \u{2014} never commit\n.env\n",
            ),
        );
    }
    proof {
        reveal_strlit("\n");
    }
    let lines = split_str(existing, "\n");
    let ghost lv = lines@.map_values(|x: String| x@);
    let mut entries: Vec<&str> = Vec::new();
    entries.push(".govbot/");
    entries.push("dist/");
    entries.push("docs/");
    entries.push("tags/");
    entries.push("state/");
    entries.push(".env");
    let ghost ev = entries@.map_values(|x: &str| x@);
    proof {
        assert(ev =~= gitignore_entries());
    }
    let mut updated = copy_str(existing);
    let mut added: usize = 0;
    let ghost mut added_seq: Seq<Seq<char>> = Seq::empty();
    let mut i: usize = 0;
    proof {
        assert(ev.take(0) =~= Seq::<Seq<char>>::empty());
    }
    while i < entries.len()
        invariant
            i <= entries.len(),
            entries@.len() == 6,
            ev == entries@.map_values(|x: &str| x@),
            lv == lines@.map_values(|x: String| x@),
            lv == split(existing@, "\n"@),
            gitignore_appended(existing@, ev.take(i as int)) == (updated@, added_seq),
            added == added_seq.len(),
            added <= i,
        decreases entries.len() - i,
    {
        proof {
            assert(ev.take(i + 1).drop_last() =~= ev.take(i as int));
            assert(ev.take(i + 1).last() == entries@[i as int]@);
        }
        let e = entries[i];
        let present = has_line_exec(&lines, e);
        proof {
            if present {
                let j = choose|j: int| 0 <= j < lines@.len() && trim(#[trigger] lines@[j]@) == e@;
                assert(lv[j] == lines@[j]@);
                assert(has_line(existing@, e@));
            }
            if has_line(existing@, e@) {
                let j = choose|j: int|
                    0 <= j < split(existing@, "\n"@).len() && trim(
                        #[trigger] split(existing@, "\n"@)[j],
                    ) == e@;
                assert(lv[j] == lines@[j]@);
            }
        }
        if !present {
            let n = updated.unicode_len();
            if n > 0 {
                let v = crate::text::chars_of(updated.as_str());
                if v[n - 1] != '\n' {
                    crate::text::push_char(&mut updated, '\n');
                }
            }
            updated.append(e);
            updated.append("\n");
            proof {
                added_seq = added_seq.push(e@);
            }
            added = added + 1;
        }
        i = i + 1;
    }
    proof {
        assert(ev.take(6) =~= ev);
    }
    if added > 0 {
        GitignoreUpdate::Append(updated, added)
    } else {
        GitignoreUpdate::Unchanged
    }
}

// ------------------------------------------------------------------
// Idempotence of the .gitignore update
// ------------------------------------------------------------------

/// What `.gitignore` holds after the update.
pub open spec fn gitignore_after(existing: Seq<char>) -> Seq<char> {
    match gitignore_update_spec(existing).0 {
        Some(t) => t,
        None => existing,
    }
}

/// Appending one entry on a line of its own.
pub open spec fn append_line(u: Seq<char>, e: Seq<char>) -> Seq<char> {
    (if u.len() > 0 && u.last() != '\n' {
        u.push('\n')
    } else {
        u
    }) + e + "\n"@
}

/// An entry as the block writes it: one line, no surrounding whitespace,
/// not empty.
pub open spec fn entry_shape(e: Seq<char>) -> bool {
    no_newline(e) && trim(e) == e && e.len() > 0
}

proof fn lemma_trim_empty()
    ensures
        trim(Seq::<char>::empty()) == Seq::<char>::empty(),
{
}

proof fn lemma_append_line(u: Seq<char>, e: Seq<char>, f: Seq<char>)
    requires
        entry_shape(e),
        f.len() > 0,
    ensures
        has_line(append_line(u, e), e),
        has_line(u, f) ==> has_line(append_line(u, e), f),
        append_line(u, e).len() > u.len(),
{
    reveal_strlit("\n");
    let nl = "\n"@;
    let emp = Seq::<char>::empty();
    let t = append_line(u, e);
    lemma_split_single_line(e);
    lemma_split_single_line(emp);
    lemma_split_concat_lines(e, emp);
    lemma_trim_empty();
    assert(e + nl + emp =~= e + nl);
    if u.len() > 0 && u.last() != '\n' {
        assert(t =~= u + nl + (e + nl + emp));
        lemma_split_concat_lines(u, e + nl + emp);
        let su = split(u, nl);
        assert(split(t, nl) =~= su + seq![e] + seq![emp]);
        assert(split(t, nl)[su.len() as int] == e);
        if has_line(u, f) {
            let i = choose|i: int| 0 <= i < su.len() && trim(#[trigger] su[i]) == f;
            assert(split(t, nl)[i] == su[i]);
        }
    } else if u.len() == 0 {
        assert(t =~= e + nl + emp);
        assert(split(t, nl) =~= seq![e] + seq![emp]);
        assert(split(t, nl)[0] == e);
        assert(split(u, nl) =~= seq![emp]) by {
            assert(u =~= emp);
        }
    } else {
        let y = u.drop_last();
        assert(u =~= y + nl + emp);
        assert(t =~= y + nl + (e + nl + emp));
        lemma_split_concat_lines(y, emp);
        lemma_split_concat_lines(y, e + nl + emp);
        let sy = split(y, nl);
        assert(split(u, nl) =~= sy + seq![emp]);
        assert(split(t, nl) =~= sy + seq![e] + seq![emp]);
        assert(split(t, nl)[sy.len() as int] == e);
        if has_line(u, f) {
            let i = choose|i: int| 0 <= i < split(u, nl).len() && trim(#[trigger] split(u, nl)[i]) == f;
            if i < sy.len() {
                assert(split(t, nl)[i] == sy[i]);
            } else {
                assert(split(u, nl)[i] == emp);
            }
        }
    }
}

proof fn lemma_appended_covers(x: Seq<char>, entries: Seq<Seq<char>>)
    requires
        forall|j: int| 0 <= j < entries.len() ==> entry_shape(#[trigger] entries[j]),
    ensures
        forall|j: int|
            0 <= j < entries.len() ==> has_line(gitignore_appended(x, entries).0, #[trigger] entries[j]),
        forall|f: Seq<char>|
            f.len() > 0 && #[trigger] has_line(x, f) ==> has_line(gitignore_appended(x, entries).0, f),
        gitignore_appended(x, entries).0.len() >= x.len(),
        gitignore_appended(x, entries).1.len() == 0 ==> gitignore_appended(x, entries).0 == x,
    decreases entries.len(),
{
    if entries.len() > 0 {
        let rest = entries.drop_last();
        assert forall|j: int| 0 <= j < rest.len() implies entry_shape(#[trigger] rest[j]) by {
            assert(rest[j] == entries[j]);
        }
        lemma_appended_covers(x, rest);
        let (u, added) = gitignore_appended(x, rest);
        let e = entries.last();
        assert(entry_shape(entries[entries.len() - 1]));
        if has_line(x, e) {
            assert forall|j: int| 0 <= j < entries.len() implies has_line(
                gitignore_appended(x, entries).0,
                #[trigger] entries[j],
            ) by {
                if j < rest.len() {
                    assert(rest[j] == entries[j]);
                }
            }
        } else {
            let t = append_line(u, e);
            assert(gitignore_appended(x, entries).0 == t);
            lemma_append_line(u, e, e);
            assert forall|j: int| 0 <= j < entries.len() implies has_line(t, #[trigger] entries[j]) by {
                if j < rest.len() {
                    assert(rest[j] == entries[j]);
                    assert(has_line(u, rest[j]));
                    lemma_append_line(u, e, rest[j]);
                }
            }
            assert forall|f: Seq<char>| f.len() > 0 && #[trigger] has_line(x, f) implies has_line(
                t,
                f,
            ) by {
                lemma_append_line(u, e, f);
            }
        }
    }
}

proof fn lemma_all_present(x: Seq<char>, entries: Seq<Seq<char>>)
    requires
        forall|j: int| 0 <= j < entries.len() ==> has_line(x, #[trigger] entries[j]),
    ensures
        gitignore_appended(x, entries).1.len() == 0,
    decreases entries.len(),
{
    if entries.len() > 0 {
        let rest = entries.drop_last();
        assert forall|j: int| 0 <= j < rest.len() implies has_line(x, #[trigger] rest[j]) by {
            assert(rest[j] == entries[j]);
        }
        lemma_all_present(x, rest);
        assert(has_line(x, entries[entries.len() - 1]));
    }
}

proof fn lemma_no_ws_chars(s: Seq<char>)
    requires
        forall|i: int| 0 <= i < s.len() ==> #[trigger] s[i] != ' ' && s[i] != '\n' && s[i] != '\t'
            && (s[i] as u32) >= 0x21 && (s[i] as u32) < 0x7f,
    ensures
        trim(s) == s,
        no_newline(s),
{
    assert forall|i: int| 0 <= i < s.len() implies !is_ws(#[trigger] s[i]) by {
        assert((s[i] as u32) >= 0x21 && (s[i] as u32) < 0x7f);
    }
    lemma_trim_no_ws(s);
}

proof fn lemma_entries_shape()
    ensures
        forall|j: int|
            0 <= j < gitignore_entries().len() ==> entry_shape(#[trigger] gitignore_entries()[j]),
{
    reveal_strlit(".govbot/");
    reveal_strlit("dist/");
    reveal_strlit("docs/");
    reveal_strlit("tags/");
    reveal_strlit("state/");
    reveal_strlit(".env");
    lemma_no_ws_chars(".govbot/"@);
    lemma_no_ws_chars("dist/"@);
    lemma_no_ws_chars("docs/"@);
    lemma_no_ws_chars("tags/"@);
    lemma_no_ws_chars("state/"@);
    lemma_no_ws_chars(".env"@);
}

/// The lines of the block, in order.
pub open spec fn block_lines() -> Seq<Seq<char>> {
    seq!["# govbot \u{2014} generated, reconstructed on every run"@, ".govbot/"@, "dist/"@, "docs/"@, "# Classification output from `govbot apply` \u{2014} regenerated each run."@, "# Remove this line if you want classification provenance committed."@, "tags/"@, "# Publisher state \u{2014} append-only ledgers (e.g. bluesky's posted-state)."@, "# Regenerable-but-operational: deleting it makes the next run double-post."@, "# Remove this line to commit post history and let cold clones resume cleanly."@, "state/"@, ""@, "# Secrets \u{2014} never commit"@, ".env"@, ""@]
}

proof fn lemma_block_lines()
    ensures
        split(gitignore_block(), "\n"@) == block_lines(),
{
    let nl = "\n"@;
    reveal_strlit("\n");
    reveal_strlit("# govbot \u{2014} generated, reconstructed on every run\n.govbot/\ndist/\ndocs/\n# Classification output from `govbot apply` \u{2014} regenerated each run.\n# Remove this line if you want classification provenance committed.\ntags/\n# Publisher state \u{2014} append-only ledgers (e.g. bluesky's posted-state).\n# Regenerable-but-operational: deleting it makes the next run double-post.\n# Remove this line to commit post history and let cold clones resume cleanly.\nstate/\n\n# Secrets \u{2014} never commit\n.env\n");
    reveal_strlit("# govbot \u{2014} generated, reconstructed on every run");
    reveal_strlit(".govbot/");
    reveal_strlit("dist/");
    reveal_strlit("docs/");
    reveal_strlit("# Classification output from `govbot apply` \u{2014} regenerated each run.");
    reveal_strlit("# Remove this line if you want classification provenance committed.");
    reveal_strlit("tags/");
    reveal_strlit("# Publisher state \u{2014} append-only ledgers (e.g. bluesky's posted-state).");
    reveal_strlit("# Regenerable-but-operational: deleting it makes the next run double-post.");
    reveal_strlit("# Remove this line to commit post history and let cold clones resume cleanly.");
    reveal_strlit("state/");
    reveal_strlit("");
    reveal_strlit("# Secrets \u{2014} never commit");
    reveal_strlit(".env");
    reveal_strlit("");
    let ls = block_lines();
    reveal_with_fuel(lines_from, 16);
    assert(gitignore_block() =~= "# govbot \u{2014} generated, reconstructed on every run"@ + nl + (".govbot/"@ + nl + ("dist/"@ + nl + ("docs/"@ + nl + ("# Classification output from `govbot apply` \u{2014} regenerated each run."@ + nl + ("# Remove this line if you want classification provenance committed."@ + nl + ("tags/"@ + nl + ("# Publisher state \u{2014} append-only ledgers (e.g. bluesky's posted-state)."@ + nl + ("# Regenerable-but-operational: deleting it makes the next run double-post."@ + nl + ("# Remove this line to commit post history and let cold clones resume cleanly."@ + nl + ("state/"@ + nl + (""@ + nl + ("# Secrets \u{2014} never commit"@ + nl + (".env"@ + nl + (""@)))))))))))))));
    assert(lines_from(ls, 0) =~= "# govbot \u{2014} generated, reconstructed on every run"@ + nl + (".govbot/"@ + nl + ("dist/"@ + nl + ("docs/"@ + nl + ("# Classification output from `govbot apply` \u{2014} regenerated each run."@ + nl + ("# Remove this line if you want classification provenance committed."@ + nl + ("tags/"@ + nl + ("# Publisher state \u{2014} append-only ledgers (e.g. bluesky's posted-state)."@ + nl + ("# Regenerable-but-operational: deleting it makes the next run double-post."@ + nl + ("# Remove this line to commit post history and let cold clones resume cleanly."@ + nl + ("state/"@ + nl + (""@ + nl + ("# Secrets \u{2014} never commit"@ + nl + (".env"@ + nl + (""@)))))))))))))));
    assert forall|k: int| 0 <= k < ls.len() implies no_newline(#[trigger] ls[k]) by {
    }
    lemma_split_suffix(ls, 0);
}

/// The newline-joined text of `ls` from the `k`-th line on.
pub open spec fn lines_from(ls: Seq<Seq<char>>, k: int) -> Seq<char>
    decreases ls.len() - k,
{
    if k >= ls.len() - 1 {
        if 0 <= k < ls.len() {
            ls[k]
        } else {
            Seq::empty()
        }
    } else {
        ls[k] + "\n"@ + lines_from(ls, k + 1)
    }
}

proof fn lemma_split_suffix(ls: Seq<Seq<char>>, k: int)
    requires
        0 <= k < ls.len(),
        forall|i: int| 0 <= i < ls.len() ==> no_newline(#[trigger] ls[i]),
    ensures
        split(lines_from(ls, k), "\n"@) == ls.skip(k),
    decreases ls.len() - k,
{
    if k == ls.len() - 1 {
        lemma_split_single_line(ls[k]);
        assert(ls.skip(k) =~= seq![ls[k]]);
    } else {
        lemma_split_suffix(ls, k + 1);
        lemma_split_concat_lines(ls[k], lines_from(ls, k + 1));
        lemma_split_single_line(ls[k]);
        assert(ls.skip(k) =~= seq![ls[k]] + ls.skip(k + 1));
    }
}

/// Running the `.gitignore` update again changes nothing: every entry it
/// appends (or the block it creates) is then present.
pub proof fn law_gitignore_update_idempotent(existing: Seq<char>)
    ensures
        gitignore_update_spec(gitignore_after(existing)) == (Option::<Seq<char>>::None, 0nat),
{
    lemma_entries_shape();
    let es = gitignore_entries();
    if existing.len() == 0 {
        let b = gitignore_block();
        lemma_block_lines();
        let ls = block_lines();

        assert forall|j: int| 0 <= j < es.len() implies has_line(b, #[trigger] es[j]) by {
            if j == 0 {
                assert(es[j] == ls[1]);
            } else if j == 1 {
                assert(es[j] == ls[2]);
            } else if j == 2 {
                assert(es[j] == ls[3]);
            } else if j == 3 {
                assert(es[j] == ls[6]);
            } else if j == 4 {
                assert(es[j] == ls[10]);
            } else {
                assert(es[j] == ls[13]);
            }
        }
        lemma_all_present(b, es);
        assert(b.len() > 0);
    } else {
        lemma_appended_covers(existing, es);
        let (u, added) = gitignore_appended(existing, es);
        lemma_all_present(u, es);
    }
}

proof fn lemma_appended_extends(x: Seq<char>, entries: Seq<Seq<char>>)
    ensures
        crate::text::is_prefix(x, gitignore_appended(x, entries).0),
    decreases entries.len(),
{
    if entries.len() == 0 {
        assert(x.take(x.len() as int) =~= x);
    } else {
        lemma_appended_extends(x, entries.drop_last());
        let (u, _) = gitignore_appended(x, entries.drop_last());
        let e = entries.last();
        let u2 = if u.len() > 0 && u.last() != '\n' {
            u.push('\n')
        } else {
            u
        };
        assert(u2.take(x.len() as int) =~= x) by {
            assert(u.take(x.len() as int) == x);
        }
        assert((u2 + e + "\n"@).take(x.len() as int) =~= x);
        assert(u.take(x.len() as int) == x);
    }
}

/// Writing the `.gitignore` block: an empty or missing file gets the whole
/// block; otherwise what was there stays, in front; and afterwards every
/// entry of the block (each line that is neither blank nor a comment) is a
/// line of the file, trimmed.
pub proof fn law_gitignore_keeps_and_covers(existing: Seq<char>)
    ensures
        existing.len() == 0 ==> gitignore_after(existing) == gitignore_block(),
        crate::text::is_prefix(existing, gitignore_after(existing)),
        forall|j: int|
            0 <= j < gitignore_entries().len() ==> has_line(
                gitignore_after(existing),
                #[trigger] gitignore_entries()[j],
            ),
{
    lemma_entries_shape();
    let es = gitignore_entries();
    if existing.len() == 0 {
        let b = gitignore_block();
        lemma_block_lines();
        let ls = block_lines();
        assert forall|j: int| 0 <= j < es.len() implies has_line(b, #[trigger] es[j]) by {
            if j == 0 {
                assert(es[j] == ls[1]);
            } else if j == 1 {
                assert(es[j] == ls[2]);
            } else if j == 2 {
                assert(es[j] == ls[3]);
            } else if j == 3 {
                assert(es[j] == ls[6]);
            } else if j == 4 {
                assert(es[j] == ls[10]);
            } else {
                assert(es[j] == ls[13]);
            }
        }
        assert(b.take(0) =~= existing);
    } else {
        lemma_appended_covers(existing, es);
        lemma_appended_extends(existing, es);
        assert(existing.take(existing.len() as int) =~= existing);
        let (u, added) = gitignore_appended(existing, es);
        assert(gitignore_after(existing) == u);
    }
}

/// The wizard's display shows the choices: the feeds' base URL on its own
/// line, the `all` choice marked when that is the choice, and otherwise the
/// datasets entered, separated by spaces.
pub proof fn law_wizard_display_shows_choices(datasets: Seq<Seq<char>>, base_url: Seq<char>)
    ensures
        crate::text::contains(
            session_display(datasets, base_url),
            "? Base URL for your feeds: "@ + base_url + "\n"@,
        ),
        datasets == seq!["all"@] ==> crate::text::contains(
            session_display(datasets, base_url),
            "> All jurisdictions in the registry"@,
        ),
        datasets != seq!["all"@] ==> crate::text::contains(
            session_display(datasets, base_url),
            join(datasets, " "@),
        ),
{
    reveal_strlit("\n\n");
    reveal_strlit("\n");
    reveal_strlit("> All jurisdictions in the registry\n");
    reveal_strlit("> All jurisdictions in the registry");
    let head = "Welcome to govbot! Let's set up your project.\n\n"@
        + "? What datasets do you want to track?\n"@;
    let mid = "\n"@ + "Classification is done by fastclass against a classifier bundle.\n"@
        + "Point the manifest's `transforms.classify.classifier` at your\n"@
        + "bundle directory (containing classifier.yml). See the fastclass\n"@
        + "docs to build one.\n\n"@
        + "Publishing is configured for an RSS feed + HTML index by default.\n"@
        + "Both land in the \"docs\" directory (feed.xml + index.html).\n\n"@;
    let tail = "  \u{2713} Created govbot.yml\n"@ + "  \u{2713} Created .gitignore\n"@
        + "  \u{2713} Created .github/workflows/build.yml\n\n"@
        + "Setup complete! Run 'govbot' again to start the pipeline.\n"@;
    let q = "? Base URL for your feeds: "@ + base_url + "\n"@;
    let d = session_display(datasets, base_url);
    assert("\n\n"@ =~= "\n"@ + "\n"@);
    assert(d =~= (head + datasets_step(datasets) + mid) + q + ("\n"@ + tail));
    crate::text::lemma_contains_middle(head + datasets_step(datasets) + mid, q, "\n"@ + tail);
    if datasets == seq!["all"@] {
        let a = "> All jurisdictions in the registry"@;
        assert("> All jurisdictions in the registry\n"@ =~= a + "\n"@);
        assert(d =~= head + a + ("\n"@ + "  Select specific datasets\n"@ + mid + q + "\n"@
            + tail));
        crate::text::lemma_contains_middle(
            head,
            a,
            "\n"@ + "  Select specific datasets\n"@ + mid + q + "\n"@ + tail,
        );
    } else {
        let pre = head + "  All jurisdictions in the registry\n"@ + "> Select specific datasets\n"@
            + "\n"@ + "Browse the registry with `govbot search`.\n"@ + "\n"@
            + "? Enter dataset ids separated by spaces: "@;
        let j = join(datasets, " "@);
        assert(d =~= pre + j + ("\n"@ + mid + q + "\n"@ + tail));
        crate::text::lemma_contains_middle(pre, j, "\n"@ + mid + q + "\n"@ + tail);
    }
}

proof fn lemma_free_concat(a: Seq<char>, b: Seq<char>, c: char)
    requires
        free_of(a, c),
        free_of(b, c),
    ensures
        free_of(a + b, c),
{
    assert forall|i: int| 0 <= i < (a + b).len() implies #[trigger] (a + b)[i] != c by {
        if i >= a.len() {
            assert((a + b)[i] == b[i - a.len()]);
        }
    }
}

proof fn lemma_join_free(parts: Seq<Seq<char>>, sep: Seq<char>, c: char)
    requires
        free_of(sep, c),
        forall|k: int| 0 <= k < parts.len() ==> free_of(#[trigger] parts[k], c),
    ensures
        free_of(join(parts, sep), c),
    decreases parts.len(),
{
    if parts.len() == 0 {
    } else if parts.len() == 1 {
        assert(free_of(parts[0], c));
    } else {
        let init = parts.drop_last();
        assert forall|k: int| 0 <= k < init.len() implies free_of(#[trigger] init[k], c) by {
            assert(init[k] == parts[k]);
        }
        lemma_join_free(init, sep, c);
        assert(free_of(parts.last(), c));
        lemma_free_concat(join(init, sep), sep, c);
        lemma_free_concat(join(init, sep) + sep, parts.last(), c);
    }
}

/// The display marks "All jurisdictions" as chosen only when the choice is
/// `all`: for any other choice whose datasets and base URL hold no `>`, the
/// marker does not occur anywhere in the display.
pub proof fn law_wizard_marks_all_only_for_all(datasets: Seq<Seq<char>>, base_url: Seq<char>)
    requires
        datasets != seq!["all"@],
        free_of(base_url, '>'),
        forall|k: int| 0 <= k < datasets.len() ==> free_of(#[trigger] datasets[k], '>'),
    ensures
        !crate::text::contains(
            session_display(datasets, base_url),
            "> All jurisdictions in the registry"@,
        ),
{
    reveal_strlit("Welcome to govbot! Let's set up your project.\n\n");
    reveal_strlit("? What datasets do you want to track?\n");
    reveal_strlit("  All jurisdictions in the registry\n");
    reveal_strlit("> Select specific datasets\n");
    reveal_strlit("\n");
    reveal_strlit("Browse the registry with `govbot search`.\n");
    reveal_strlit("? Enter dataset ids separated by spaces: ");
    reveal_strlit(" ");
    reveal_strlit("Classification is done by fastclass against a classifier bundle.\n");
    reveal_strlit("Point the manifest's `transforms.classify.classifier` at your\n");
    reveal_strlit("bundle directory (containing classifier.yml). See the fastclass\n");
    reveal_strlit("docs to build one.\n\n");
    reveal_strlit("Publishing is configured for an RSS feed + HTML index by default.\n");
    reveal_strlit("Both land in the \"docs\" directory (feed.xml + index.html).\n\n");
    reveal_strlit("? Base URL for your feeds: ");
    reveal_strlit("\n\n");
    reveal_strlit("  \u{2713} Created govbot.yml\n");
    reveal_strlit("  \u{2713} Created .gitignore\n");
    reveal_strlit("  \u{2713} Created .github/workflows/build.yml\n\n");
    reveal_strlit("Setup complete! Run 'govbot' again to start the pipeline.\n");
    reveal_strlit("> All jurisdictions in the registry");
    let a = "Welcome to govbot! Let's set up your project.\n\n"@
        + "? What datasets do you want to track?\n"@ + "  All jurisdictions in the registry\n"@;
    let m = "> Select specific datasets\n"@;
    let j = join(datasets, " "@);
    lemma_join_free(datasets, " "@, '>');
    let b1 = "\n"@ + "Browse the registry with `govbot search`.\n"@ + "\n"@
        + "? Enter dataset ids separated by spaces: "@;
    let b2 = "\n"@ + "\n"@ + "Classification is done by fastclass against a classifier bundle.\n"@
        + "Point the manifest's `transforms.classify.classifier` at your\n"@
        + "bundle directory (containing classifier.yml). See the fastclass\n"@
        + "docs to build one.\n\n"@
        + "Publishing is configured for an RSS feed + HTML index by default.\n"@
        + "Both land in the \"docs\" directory (feed.xml + index.html).\n\n"@
        + "? Base URL for your feeds: "@;
    let b3 = "\n\n"@ + "  \u{2713} Created govbot.yml\n"@ + "  \u{2713} Created .gitignore\n"@
        + "  \u{2713} Created .github/workflows/build.yml\n\n"@
        + "Setup complete! Run 'govbot' again to start the pipeline.\n"@;
    let b = b1 + j + b2 + base_url + b3;
    let s = session_display(datasets, base_url);
    assert(s =~= a + m + b);
    assert(free_of(a, '>'));
    assert(free_of(b1, '>'));
    assert(free_of(b2, '>'));
    assert(free_of(b3, '>'));
    lemma_free_concat(b1, j, '>');
    lemma_free_concat(b1 + j, b2, '>');
    lemma_free_concat(b1 + j + b2, base_url, '>');
    lemma_free_concat(b1 + j + b2 + base_url, b3, '>');
    let p = "> All jurisdictions in the registry"@;
    assert forall|i: int| 0 <= i implies !occurs_at(s, p, i) by {
        if occurs_at(s, p, i) {
            assert(s.subrange(i, i + p.len())[0] == p[0]);
            assert(s[i] == '>');
            if i < a.len() {
                assert(s[i] == a[i]);
            } else if i == a.len() {
                assert(s.subrange(i, i + p.len())[2] == p[2]);
                assert(s[i + 2] == m[2]);
            } else if i < a.len() + m.len() {
                assert(s[i] == m[i - a.len()]);
            } else {
                assert(s[i] == b[i - a.len() - m.len()]);
            }
        }
    }
    crate::text::lemma_find_props(s, p);
}

/// Every publisher block of the generated manifest carries the entered
/// base URL: the `feed` (rss) block and the `site` (html) block each hold
/// the line `    base_url: "<base_url>"`.
pub proof fn law_every_publisher_gets_the_base_url(datasets: Seq<Seq<char>>, base_url: Seq<char>)
    ensures
        crate::text::contains(
            govbot_yml_spec(datasets, base_url),
            "  feed:\n"@ + "    type: rss\n"@ + "    base_url: \""@ + base_url + "\"\n"@,
        ),
        crate::text::contains(
            govbot_yml_spec(datasets, base_url),
            "  site:\n"@ + "    type: html\n"@ + "    base_url: \""@ + base_url + "\"\n"@,
        ),
{
    let head = "# Govbot Manifest\n"@
        + "# Schema: https://raw.githubusercontent.com/chihacknight/govbot/main/schemas/govbot.schema.json\n"@
        + "$schema: https://raw.githubusercontent.com/chihacknight/govbot/main/schemas/govbot.schema.json\n\n"@
        + "datasets:\n"@ + dataset_lines(datasets) + "\n"@ + "transforms:\n"@ + "  classify:\n"@
        + "    command: [fastclass, classify, \"-\"]\n"@ + "    reads: docs\n"@
        + "    writes: classification\n"@
        + "    # Path to your fastclass classifier bundle (containing classifier.yml).\n"@
        + "    classifier: ./classifier\n"@ + "\n"@ + "publish:\n"@;
    let feed = "  feed:\n"@ + "    type: rss\n"@ + "    base_url: \""@ + base_url + "\"\n"@;
    let mid = "    output_dir: \"docs\"\n"@ + "    output_file: \"feed.xml\"\n"@;
    let site = "  site:\n"@ + "    type: html\n"@ + "    base_url: \""@ + base_url + "\"\n"@;
    let tail = "    output_dir: \"docs\"\n"@ + "    output_file: \"index.html\"\n"@ + "\n"@
        + "pipelines:\n"@ + "  default:\n"@ + "    - classify\n"@ + "    - feed\n"@
        + "    - site\n"@;
    let y = govbot_yml_spec(datasets, base_url);
    assert(y =~= head + feed + (mid + site + tail));
    crate::text::lemma_contains_middle(head, feed, mid + site + tail);
    assert(y =~= (head + feed + mid) + site + tail);
    crate::text::lemma_contains_middle(head + feed + mid, site, tail);
}

} // verus!
