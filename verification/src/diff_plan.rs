//! The review diff that review workers and integrators read: which refs are
//! fetched into the repository cache, which range is diffed, and which
//! files the diff is written to.
use vstd::prelude::*;
use vstd::string::*;
use crate::domain::Repository;

use crate::workspace::{parse_short_symref, short_symref_branch, ASSUMED_DEFAULT_BRANCH};

verus! {

/// The patch file of a review diff (the review worker prompt names it).
pub const DIFF_PATCH_FILE: &'static str = "diff.patch";

/// The list of changed files of a review diff (the review worker prompt names
/// it).
pub const CHANGED_FILES_FILE: &'static str = "changed_files.txt";

/// A git command whose standard output is saved to a file.
#[derive(Debug, Clone)]
pub struct GitCapture {
    pub args: Vec<String>,
    /// File name inside the diff directory.
    pub file: String,
    /// How the command is named when it fails.
    pub description: String,
}

pub open spec fn arg_views(v: Seq<String>) -> Seq<Seq<char>> {
    v.map_values(|s: String| s@)
}

/// The two captures of a review diff over `range`: `git diff <range>` into
/// the patch file and `git diff --name-only <range>` into the changed-files
/// list, described as `git diff (<kind>)` and `git diff --name-only
/// (<kind>)`.
pub fn diff_outputs(range: &str, kind: &str) -> (r: Vec<GitCapture>)
    ensures
        r@.len() == 2,
        arg_views(r@[0].args@) == seq!["diff"@, range@],
        r@[0].file@ == DIFF_PATCH_FILE@,
        r@[0].description@ == "git diff ("@ + kind@ + ")"@,
        arg_views(r@[1].args@) == seq!["diff"@, "--name-only"@, range@],
        r@[1].file@ == CHANGED_FILES_FILE@,
        r@[1].description@ == "git diff --name-only ("@ + kind@ + ")"@,
{
    let mut a0: Vec<String> = Vec::new();
    a0.push(String::from_str("diff"));
    a0.push(String::from_str(range));
    let mut a1: Vec<String> = Vec::new();
    a1.push(String::from_str("diff"));
    a1.push(String::from_str("--name-only"));
    a1.push(String::from_str(range));
    let patch = GitCapture {
        args: a0,
        file: String::from_str(DIFF_PATCH_FILE),
        description: String::from_str("git diff (").concat(kind).concat(")"),
    };
    let names = GitCapture {
        args: a1,
        file: String::from_str(CHANGED_FILES_FILE),
        description: String::from_str("git diff --name-only (").concat(kind).concat(")"),
    };
    let mut r: Vec<GitCapture> = Vec::new();
    r.push(patch);
    r.push(names);
    assert(arg_views(r@[0].args@) =~= seq!["diff"@, range@]);
    assert(arg_views(r@[1].args@) =~= seq!["diff"@, "--name-only"@, range@]);
    r
}

/// `+<base>:refs/palette/base/<base>`: the refspec that keeps a pull
/// request's base commit in the cache even when origin has no branch for
/// it.
pub fn pr_base_refspec(base_sha: &str) -> (s: String)
    ensures
        s@ == "+"@ + base_sha@ + ":refs/palette/base/"@ + base_sha@,
{
    String::from_str("+").concat(base_sha).concat(":refs/palette/base/").concat(base_sha)
}

/// `<base>...<head>`: the range of a pull request's diff.
pub fn pr_diff_range(base_sha: &str, head_sha: &str) -> (s: String)
    ensures
        s@ == base_sha@ + "..."@ + head_sha@,
{
    String::from_str(base_sha).concat("...").concat(head_sha)
}

/// `refs/palette/work/<anchor>`: where a craft job's work branch is fetched
/// in the cache, one ref per craft job so that workflows on one repository
/// do not overwrite each other's.
pub fn craft_work_ref(anchor_job_id: &str) -> (s: String)
    ensures
        s@ == "refs/palette/work/"@ + anchor_job_id@,
{
    String::from_str("refs/palette/work/").concat(anchor_job_id)
}

/// `+<work_branch>:<work_ref>`: the refspec that fetches a crafter's work
/// branch from its workspace.
pub fn craft_fetch_refspec(work_branch: &str, work_ref: &str) -> (s: String)
    ensures
        s@ == "+"@ + work_branch@ + ":"@ + work_ref@,
{
    String::from_str("+").concat(work_branch).concat(":").concat(work_ref)
}

/// `<source>...<work_ref>`: the range of a craft diff.
pub fn craft_diff_range(source_branch: &str, work_ref: &str) -> (s: String)
    ensures
        s@ == source_branch@ + "..."@ + work_ref@,
{
    String::from_str(source_branch).concat("...").concat(work_ref)
}

/// The branch a craft diff starts from: the repository's source branch;
/// without one, the default branch that the cache's `origin/HEAD` names
/// (`symref_output`, the output of `git symbolic-ref --short
/// refs/remotes/origin/HEAD` when it succeeded), else `main`.
pub fn craft_source_branch(repo: &Repository, symref_output: Option<&str>) -> (s: String)
    ensures
        match repo.source_branch {
            Some(b) => s@ == b@,
            None => match symref_output {
                Some(out) => s@ == short_symref_branch(out@),
                None => s@ == ASSUMED_DEFAULT_BRANCH@,
            },
        },
{
    match &repo.source_branch {
        Some(b) => b.clone(),
        None => match symref_output {
            Some(out) => parse_short_symref(out),
            None => String::from_str(ASSUMED_DEFAULT_BRANCH),
        },
    }
}

} // verus!
