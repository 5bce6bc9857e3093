//! `load`: the DuckDB script that loads every bill's `metadata.json`, and
//! where the repos directory is.
use vstd::prelude::*;
use crate::anchor::{join_path, path_join};
use crate::num::{decimal, usize_to_string};
use crate::wizard::TextBuilder;

verus! {

/// The repos directory: `<dir>/repos` for a `--govbot-dir` flag, else for a
/// `GOVBOT_DIR` value, else `<cwd>/.govbot/repos`.
pub open spec fn repos_dir_spec(flag: Option<Seq<char>>, env: Option<Seq<char>>, cwd: Seq<char>) -> Seq<
    char,
> {
    match flag {
        Some(d) => path_join(d, "repos"@),
        None => match env {
            Some(d) => path_join(d, "repos"@),
            None => path_join(path_join(cwd, ".govbot"@), "repos"@),
        },
    }
}

pub fn repos_dir(flag: Option<&str>, env: Option<&str>, cwd: &str) -> (r: String)
    ensures
        r@ == repos_dir_spec(
            match flag {
                Some(d) => Some(d@),
                None => None,
            },
            match env {
                Some(d) => Some(d@),
                None => None,
            },
            cwd@,
        ),
{
    match flag {
        Some(d) => join_path(d, "repos"),
        None => match env {
            Some(d) => join_path(d, "repos"),
            None => {
                let g = join_path(cwd, ".govbot");
                join_path(g.as_str(), "repos")
            },
        },
    }
}

/// The DuckDB script: load the JSON extension, set the memory limit
/// (16GB by default) and thread count (4 by default), create `bills` from
/// every `<repos>/**/bills/*/metadata.json` with its source file, a
/// `bills_summary` view, and report the count.
pub open spec fn duckdb_script_of(memory_limit: Seq<char>, threads: nat, repos: Seq<char>) -> Seq<
    char,
> {
    "-- Load JSON extension\n"@ + "INSTALL json;\n"@ + "LOAD json;\n"@ + "\n"@
        + "SET memory_limit='"@ + memory_limit + "';\n"@ + "SET threads="@ + decimal(threads)
        + ";\n"@ + "SET preserve_insertion_order=false;\n"@ + "\n"@
        + "-- Create table from metadata.json files only\n"@
        + "-- Using union_by_name to handle schema variations across files\n"@
        + "CREATE TABLE bills AS\n"@ + "SELECT \n"@ + "    *,\n"@
        + "    filename as source_file\n"@ + "FROM read_json_auto('"@ + repos
        + "/**/bills/*/metadata.json', \n"@ + "    filename=true, \n"@
        + "    union_by_name=true);\n"@ + "\n"@ + "-- Create some useful views\n"@
        + "CREATE VIEW bills_summary AS\n"@ + "SELECT \n"@ + "    identifier,\n"@
        + "    title,\n"@ + "    legislative_session,\n"@
        + "    jurisdiction->>'id' as jurisdiction_id,\n"@
        + "    jurisdiction->>'name' as jurisdiction_name,\n"@
        + "    json_array_length(actions) as action_count,\n"@
        + "    json_array_length(sponsorships) as sponsor_count,\n"@ + "    source_file\n"@
        + "FROM bills;\n"@ + "\n"@ + "-- Show summary\n"@
        + "SELECT 'Bills loaded:' as info, COUNT(*) as count FROM bills;\n"@
}

/// The DuckDB script `load` runs over the datasets under `repos`.
pub fn duckdb_script(memory_limit: Option<&str>, threads: Option<usize>, repos: &str) -> (r: String)
    ensures
        r@ == duckdb_script_of(
            match memory_limit {
                Some(m) => m@,
                None => "16GB"@,
            },
            match threads {
                Some(t) => t as nat,
                None => 4,
            },
            repos@,
        ),
{
    let n = match threads {
        Some(t) => t,
        None => 4,
    };
    let n_text = usize_to_string(n);
    let mut s = TextBuilder::new();
    s.add("-- Load JSON extension\n");
    s.add("INSTALL json;\n");
    s.add("LOAD json;\n");
    s.add("\n");
    s.add("SET memory_limit='");
    match memory_limit {
        Some(m) => s.add(m),
        None => s.add("16GB"),
    }
    s.add("';\n");
    s.add("SET threads=");
    s.add(n_text.as_str());
    s.add(";\n");
    s.add("SET preserve_insertion_order=false;\n");
    s.add("\n");
    s.add("-- Create table from metadata.json files only\n");
    s.add("-- Using union_by_name to handle schema variations across files\n");
    s.add("CREATE TABLE bills AS\n");
    s.add("SELECT \n");
    s.add("    *,\n");
    s.add("    filename as source_file\n");
    s.add("FROM read_json_auto('");
    s.add(repos);
    s.add("/**/bills/*/metadata.json', \n");
    s.add("    filename=true, \n");
    s.add("    union_by_name=true);\n");
    s.add("\n");
    s.add("-- Create some useful views\n");
    s.add("CREATE VIEW bills_summary AS\n");
    s.add("SELECT \n");
    s.add("    identifier,\n");
    s.add("    title,\n");
    s.add("    legislative_session,\n");
    s.add("    jurisdiction->>'id' as jurisdiction_id,\n");
    s.add("    jurisdiction->>'name' as jurisdiction_name,\n");
    s.add("    json_array_length(actions) as action_count,\n");
    s.add("    json_array_length(sponsorships) as sponsor_count,\n");
    s.add("    source_file\n");
    s.add("FROM bills;\n");
    s.add("\n");
    s.add("-- Show summary\n");
    s.add("SELECT 'Bills loaded:' as info, COUNT(*) as count FROM bills;\n");
    proof {
        assert(s.text@ =~= duckdb_script_of(
            match memory_limit {
                Some(m) => m@,
                None => "16GB"@,
            },
            n as nat,
            repos@,
        ));
    }
    s.text
}

} // verus!
