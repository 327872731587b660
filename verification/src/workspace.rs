//! Host-side repository caches and workspaces: where they live, and the
//! decisions taken while creating them from git's answers.
//!
//! Repository caches are bare clones stored under
//! `data/repos/{org}/{repo}.git`; workspaces are shared clones stored under
//! `data/workspace/{job_id}`.
use vstd::prelude::*;
use vstd::string::*;
use crate::domain::{PullRequest, Repository};
use crate::path::{join, path_join};
use crate::text::{
    decimal, first_line, first_line_of, first_word, first_word_of, seq_starts_with, strip_prefix_text, trim,
    trimmed, u64_to_decimal,
};

verus! {

/// Container-side mount point for the repo cache.
pub const CONTAINER_REPO_CACHE: &'static str = "/home/agent/repo-cache";

/// Sentinel pushurl that blocks pushes from workspaces that must remain
/// read-only to origin (pull request review clones).
pub const PUSH_DISABLED: &'static str = "PUSH_DISABLED";

/// Commit message used when importing the Blueprint directory into a
/// Repo-inside-Plan workspace.
pub const PLAN_IMPORT_COMMIT_MESSAGE: &'static str = "chore(plan): import workflow plan";

/// Commit identity used when neither the operator's nor the workspace's
/// git configuration provides one.
pub const FALLBACK_EMAIL: &'static str = "palette-import@localhost";
pub const FALLBACK_NAME: &'static str = "Palette Plan Import";

/// Branch assumed when the cache cannot tell origin's default branch.
pub const ASSUMED_DEFAULT_BRANCH: &'static str = "main";

/// Manages host-side repository caches and workspaces under `data_dir`.
#[derive(Debug, Clone)]
pub struct WorkspaceManager {
    data_dir: String,
}

/// Information about a created workspace, containing absolute host paths.
#[derive(Debug, Clone)]
pub struct WorkspaceInfo {
    pub host_path: String,
    pub repo_cache_path: String,
}

pub open spec fn repo_cache_path_of(data_dir: Seq<char>, repo_name: Seq<char>) -> Seq<char> {
    path_join(path_join(data_dir, "repos"@), repo_name + ".git"@)
}

pub open spec fn workspace_path_of(data_dir: Seq<char>, job_id: Seq<char>) -> Seq<char> {
    path_join(path_join(data_dir, "workspace"@), job_id)
}

pub open spec fn artifacts_path_of(data_dir: Seq<char>, workflow_id: Seq<char>, craft_job_id: Seq<char>) -> Seq<char> {
    path_join(path_join(path_join(data_dir, "artifacts"@), workflow_id), craft_job_id)
}

impl WorkspaceManager {
    pub closed spec fn root(&self) -> Seq<char> {
        self.data_dir@
    }

    /// A manager rooted at `data_dir`.
    pub fn new(data_dir: &str) -> (m: WorkspaceManager)
        ensures
            m.root() == data_dir@,
    {
        WorkspaceManager { data_dir: String::from_str(data_dir) }
    }

    /// Host path of the bare cache for a repository, e.g.
    /// `data/repos/x7c1/palette-demo.git`.
    pub fn repo_cache_path(&self, repo: &Repository) -> (p: String)
        ensures
            p@ == repo_cache_path_of(self.root(), repo.name@),
    {
        let repos = join(self.data_dir.as_str(), "repos");
        let name = repo.name.clone().concat(".git");
        join(repos.as_str(), name.as_str())
    }

    /// Host path of a workspace directory, e.g. `data/workspace/C-a3f2b7e1`.
    pub fn workspace_path(&self, job_id: &str) -> (p: String)
        ensures
            p@ == workspace_path_of(self.root(), job_id@),
    {
        let ws = join(self.data_dir.as_str(), "workspace");
        join(ws.as_str(), job_id)
    }

    /// Host path of the artifacts directory of a craft job, e.g.
    /// `data/artifacts/{workflow_id}/{craft_job_id}`.
    pub fn artifacts_path(&self, workflow_id: &str, craft_job_id: &str) -> (p: String)
        ensures
            p@ == artifacts_path_of(self.root(), workflow_id@, craft_job_id@),
    {
        let a = join(self.data_dir.as_str(), "artifacts");
        let w = join(a.as_str(), workflow_id);
        join(w.as_str(), craft_job_id)
    }
}

/// `round-<n>`: a review round's directory name.
pub open spec fn round_dir_name(round: u32) -> Seq<char> {
    "round-"@ + decimal(round as nat)
}

/// The directory of review round `round` under an artifacts directory.
pub fn round_dir(artifacts: &str, round: u32) -> (p: String)
    ensures
        p@ == path_join(artifacts@, round_dir_name(round)),
{
    let n = u64_to_decimal(round as u64);
    let name = String::from_str("round-").concat(n.as_str());
    join(artifacts, name.as_str())
}

/// Where a review worker writes its review in a round.
pub fn review_md_path(artifacts: &str, round: u32, job_id: &str) -> (p: String)
    ensures
        p@ == path_join(path_join(path_join(artifacts@, round_dir_name(round)), job_id@), "review.md"@),
{
    let r = round_dir(artifacts, round);
    let j = join(r.as_str(), job_id);
    join(j.as_str(), "review.md")
}

/// Where a review integrator writes the integrated review of a round.
pub fn integrated_review_path(artifacts: &str, round: u32) -> (p: String)
    ensures
        p@ == path_join(path_join(artifacts@, round_dir_name(round)), "integrated-review.json"@),
{
    let r = round_dir(artifacts, round);
    join(r.as_str(), "integrated-review.json")
}

/// Where an orchestrator check's result is saved.
pub fn check_result_path(artifacts: &str) -> (p: String)
    ensures
        p@ == path_join(artifacts@, "check-result.json"@),
{
    join(artifacts, "check-result.json")
}

/// A workspace's alternates file.
pub fn alternates_path(workspace: &str) -> (p: String)
    ensures
        p@ == path_join(workspace@, ".git/objects/info/alternates"@),
{
    join(workspace, ".git/objects/info/alternates")
}

/// The alternates a workspace uses inside its container: the container's
/// repo cache objects.
pub fn container_alternates() -> (s: String)
    ensures
        s@ == CONTAINER_REPO_CACHE@ + "/objects\n"@,
{
    String::from_str(CONTAINER_REPO_CACHE).concat("/objects\n")
}

/// The URL a repository cache is cloned from.
pub fn clone_url(repo_name: &str) -> (s: String)
    ensures
        s@ == "https://github.com/"@ + repo_name@ + ".git"@,
{
    String::from_str("https://github.com/").concat(repo_name).concat(".git")
}

/// `owner/repo`: the repository of a pull request.
pub fn pull_request_repo_name(pr: &PullRequest) -> (s: String)
    ensures
        s@ == pr.owner@ + "/"@ + pr.repo@,
{
    pr.owner.clone().concat("/").concat(pr.repo.as_str())
}

/// The repository of a pull request, as a review workspace clones it: its
/// `owner/repo` on branch `main`.
pub fn pull_request_repository(pr: &PullRequest) -> (r: Repository)
    ensures
        r.name@ == pr.owner@ + "/"@ + pr.repo@,
        r.work_branch@ == ASSUMED_DEFAULT_BRANCH@,
        r.source_branch is None,
{
    Repository {
        name: pull_request_repo_name(pr),
        work_branch: String::from_str(ASSUMED_DEFAULT_BRANCH),
        source_branch: None,
    }
}

/// `refs/pull/<n>/head`: the ref of a pull request's head.
pub fn pull_request_head_ref(number: u64) -> (s: String)
    ensures
        s@ == "refs/pull/"@ + decimal(number as nat) + "/head"@,
{
    let n = u64_to_decimal(number);
    String::from_str("refs/pull/").concat(n.as_str()).concat("/head")
}

/// `refs/remotes/origin/<branch>`: where a clone sees origin's branch.
pub fn remote_branch_ref(branch: &str) -> (s: String)
    ensures
        s@ == "refs/remotes/origin/"@ + branch@,
{
    String::from_str("refs/remotes/origin/").concat(branch)
}

/// How a craft workspace gets onto its work branch.
#[derive(Debug, Clone)]
pub enum BranchSetup {
    /// Origin already has the work branch: check it out (resume).
    CheckoutExisting { branch: String },
    /// Check out `source`, then create the work branch from it.
    CreateFrom { source: String, branch: String },
}

/// Whether creating the work branch needs origin's default branch: only
/// when origin lacks the work branch and no source branch is given.
pub fn needs_default_branch(remote_has_work_branch: bool, repo: &Repository) -> (b: bool)
    ensures
        b == (!remote_has_work_branch && repo.source_branch is None),
{
    !remote_has_work_branch && repo.source_branch.is_none()
}

/// Decide how the workspace reaches `repo.work_branch`: check it out when
/// origin has it; otherwise create it from the source branch, or from
/// `default_branch` when the repository names none.
pub fn branch_setup(remote_has_work_branch: bool, repo: &Repository, default_branch: &str) -> (s: BranchSetup)
    ensures
        remote_has_work_branch ==> (s matches BranchSetup::CheckoutExisting { branch } && branch@ == repo.work_branch@),
        !remote_has_work_branch ==> (s matches BranchSetup::CreateFrom { source, branch } && branch@
            == repo.work_branch@ && source@ == match repo.source_branch {
            Some(sb) => sb@,
            None => default_branch@,
        }),
{
    if remote_has_work_branch {
        BranchSetup::CheckoutExisting { branch: repo.work_branch.clone() }
    } else {
        let source = match &repo.source_branch {
            Some(sb) => sb.clone(),
            None => String::from_str(default_branch),
        };
        BranchSetup::CreateFrom { source, branch: repo.work_branch.clone() }
    }
}

/// What `git ls-remote --symref origin HEAD` printed that could not be
/// read as origin's default branch.
#[derive(Debug, Clone)]
pub enum SymrefError {
    /// Nothing was printed.
    EmptyOutput,
    /// The first line is not `ref: <target> ...`.
    UnexpectedLine { line: String },
    /// The target is not under `refs/heads/`.
    UnexpectedTarget { target: String },
}

/// How `git ls-remote --symref origin HEAD` output reads.
pub enum SymrefReading {
    /// The default branch.
    Branch(Seq<char>),
    /// Nothing was printed.
    Empty,
    /// The first line is not `ref: <target> ...`.
    BadLine(Seq<char>),
    /// The target is not under `refs/heads/`.
    BadTarget(Seq<char>),
}

/// Read the output of `git ls-remote --symref origin HEAD`: the first line
/// reads `ref: refs/heads/<branch>\tHEAD`.
pub open spec fn symref_reading(stdout: Seq<char>) -> SymrefReading {
    match first_line_of(stdout) {
        None => SymrefReading::Empty,
        Some(line) => if !seq_starts_with(line, "ref: "@) {
            SymrefReading::BadLine(line)
        } else {
            match first_word_of(line.skip(5)) {
                None => SymrefReading::BadLine(line),
                Some(target) => if seq_starts_with(target, "refs/heads/"@) {
                    SymrefReading::Branch(target.skip(11))
                } else {
                    SymrefReading::BadTarget(target)
                },
            }
        },
    }
}

impl SymrefError {
    /// The error's description.
    pub fn message(&self) -> (r: String)
        ensures
            match self {
                SymrefError::EmptyOutput => r@ == "empty output from git ls-remote --symref origin HEAD"@,
                SymrefError::UnexpectedLine { line } => r@ == "unexpected ls-remote line: "@ + line@,
                SymrefError::UnexpectedTarget { target } => r@ == "unexpected HEAD target: "@ + target@,
            },
    {
        match self {
            SymrefError::EmptyOutput => String::from_str("empty output from git ls-remote --symref origin HEAD"),
            SymrefError::UnexpectedLine { line } => String::from_str("unexpected ls-remote line: ").concat(
                line.as_str(),
            ),
            SymrefError::UnexpectedTarget { target } => String::from_str("unexpected HEAD target: ").concat(
                target.as_str(),
            ),
        }
    }
}

/// Read origin's default branch from `git ls-remote --symref origin HEAD`
/// output (see [`symref_reading`]); errors carry the offending line or
/// target.
pub fn parse_symref_head(stdout: &str) -> (r: Result<String, SymrefError>)
    ensures
        match symref_reading(stdout@) {
            SymrefReading::Branch(b) => r matches Ok(x) && x@ == b,
            SymrefReading::Empty => r matches Err(SymrefError::EmptyOutput),
            SymrefReading::BadLine(l) => r matches Err(SymrefError::UnexpectedLine { line }) && line@ == l,
            SymrefReading::BadTarget(t) => r matches Err(SymrefError::UnexpectedTarget { target }) && target@ == t,
        },
{
    proof {
        reveal_strlit("ref: ");
        reveal_strlit("refs/heads/");
    }
    let line = match first_line(stdout) {
        None => {
            return Err(SymrefError::EmptyOutput);
        },
        Some(l) => l,
    };
    let rest = match strip_prefix_text(line.as_str(), "ref: ") {
        None => {
            return Err(SymrefError::UnexpectedLine { line });
        },
        Some(r) => r,
    };
    let target = match first_word(rest.as_str()) {
        None => {
            return Err(SymrefError::UnexpectedLine { line });
        },
        Some(t) => t,
    };
    match strip_prefix_text(target.as_str(), "refs/heads/") {
        Some(b) => Ok(b),
        None => Err(SymrefError::UnexpectedTarget { target }),
    }
}

/// The branch that `git symbolic-ref --short refs/remotes/origin/HEAD`
/// names (`origin/<branch>`), or `main` when its output says otherwise.
pub open spec fn short_symref_branch(stdout: Seq<char>) -> Seq<char> {
    let t = trimmed(stdout);
    if seq_starts_with(t, "origin/"@) {
        t.skip(7)
    } else {
        ASSUMED_DEFAULT_BRANCH@
    }
}

/// Read the default branch from `git symbolic-ref --short
/// refs/remotes/origin/HEAD` output (see [`short_symref_branch`]).
pub fn parse_short_symref(stdout: &str) -> (r: String)
    ensures
        r@ == short_symref_branch(stdout@),
{
    proof {
        reveal_strlit("origin/");
    }
    let t = trim(stdout);
    match strip_prefix_text(t.as_str(), "origin/") {
        Some(b) => b,
        None => String::from_str(ASSUMED_DEFAULT_BRANCH),
    }
}

/// Whether `git status --porcelain` output reports changes.
pub fn porcelain_has_changes(stdout: &str) -> (b: bool)
    ensures
        b == (trimmed(stdout@).len() > 0),
{
    let t = trim(stdout);
    t.as_str().unicode_len() > 0
}

/// Whether a commit identity key needs the fallback value: `git config
/// --get` failed or printed nothing.
pub fn identity_needs_fallback(lookup_succeeded: bool, printed_len: usize) -> (b: bool)
    ensures
        b == !(lookup_succeeded && printed_len > 0),
{
    !(lookup_succeeded && printed_len > 0)
}

/// The identity keys checked before committing, each with its fallback.
pub fn commit_identity_fallbacks() -> (r: Vec<(String, String)>)
    ensures
        r@.len() == 2,
        r@[0].0@ == "user.email"@ && r@[0].1@ == FALLBACK_EMAIL@,
        r@[1].0@ == "user.name"@ && r@[1].1@ == FALLBACK_NAME@,
{
    let mut r: Vec<(String, String)> = Vec::new();
    r.push((String::from_str("user.email"), String::from_str(FALLBACK_EMAIL)));
    r.push((String::from_str("user.name"), String::from_str(FALLBACK_NAME)));
    r
}

} // verus!
