use palette_orchestrator::checks::{
    check_result, job_command, launch_failed_outcome, status_after_check, timed_out_outcome,
    CommandOutcome,
};
use palette_orchestrator::diff_plan::{
    craft_diff_range, craft_fetch_refspec, craft_source_branch, craft_work_ref, diff_outputs,
    pr_base_refspec, pr_diff_range,
};
use palette_orchestrator::domain::{JobDetail, JobStatus, MechanizedStatus, PullRequest, Repository};
use palette_orchestrator::workspace::{
    alternates_path, branch_setup, check_result_path, clone_url, commit_identity_fallbacks,
    container_alternates, identity_needs_fallback, integrated_review_path, needs_default_branch,
    parse_short_symref, parse_symref_head, porcelain_has_changes, pull_request_head_ref,
    pull_request_repository, remote_branch_ref, review_md_path, round_dir, BranchSetup,
    SymrefError, WorkspaceManager,
};

fn repo(source: Option<&str>) -> Repository {
    Repository {
        name: "x7c1/palette-demo".to_string(),
        work_branch: "feature/new-branch".to_string(),
        source_branch: source.map(|s| s.to_string()),
    }
}

#[test]
fn manager_paths() {
    let m = WorkspaceManager::new("data");
    assert_eq!(m.repo_cache_path(&repo(None)), "data/repos/x7c1/palette-demo.git");
    assert_eq!(m.workspace_path("C-a3f2b7e1"), "data/workspace/C-a3f2b7e1");
    assert_eq!(m.artifacts_path("wf-1", "C-1"), "data/artifacts/wf-1/C-1");
    let abs = WorkspaceManager::new("/var/palette/");
    assert_eq!(abs.workspace_path("C-1"), "/var/palette/workspace/C-1");
}

#[test]
fn artifact_paths() {
    let a = "data/artifacts/wf-1/C-1";
    assert_eq!(round_dir(a, 2), "data/artifacts/wf-1/C-1/round-2");
    assert_eq!(review_md_path(a, 1, "R-1"), "data/artifacts/wf-1/C-1/round-1/R-1/review.md");
    assert_eq!(integrated_review_path(a, 3), "data/artifacts/wf-1/C-1/round-3/integrated-review.json");
    assert_eq!(check_result_path(a), "data/artifacts/wf-1/C-1/check-result.json");
    assert_eq!(alternates_path("/ws/C-1"), "/ws/C-1/.git/objects/info/alternates");
    assert_eq!(container_alternates(), "/home/agent/repo-cache/objects\n");
}

#[test]
fn git_names() {
    assert_eq!(clone_url("x7c1/demo"), "https://github.com/x7c1/demo.git");
    assert_eq!(pull_request_head_ref(12), "refs/pull/12/head");
    assert_eq!(remote_branch_ref("main"), "refs/remotes/origin/main");
    let pr = PullRequest { owner: "x7c1".to_string(), repo: "demo-e".to_string(), number: 1 };
    let r = pull_request_repository(&pr);
    assert_eq!(r.name, "x7c1/demo-e");
    assert_eq!(r.work_branch, "main");
    assert!(r.source_branch.is_none());
}

#[test]
fn create_workspace_creates_work_branch_from_default_branch_when_remote_missing() {
    let r = repo(None);
    assert!(needs_default_branch(false, &r));
    match branch_setup(false, &r, "main") {
        BranchSetup::CreateFrom { source, branch } => {
            assert_eq!(source, "main");
            assert_eq!(branch, "feature/new-branch");
        }
        other => panic!("expected CreateFrom, got {other:?}"),
    }
}

#[test]
fn create_workspace_checks_out_existing_work_branch_from_remote() {
    let r = repo(None);
    assert!(!needs_default_branch(true, &r));
    match branch_setup(true, &r, "main") {
        BranchSetup::CheckoutExisting { branch } => assert_eq!(branch, "feature/new-branch"),
        other => panic!("expected CheckoutExisting, got {other:?}"),
    }
}

#[test]
fn create_workspace_uses_explicit_source_branch_when_present() {
    let r = repo(Some("release/1.0"));
    assert!(!needs_default_branch(false, &r));
    match branch_setup(false, &r, "main") {
        BranchSetup::CreateFrom { source, .. } => assert_eq!(source, "release/1.0"),
        other => panic!("expected CreateFrom, got {other:?}"),
    }
}

#[test]
fn resolve_default_branch_reads_origin_head() {
    assert_eq!(parse_symref_head("ref: refs/heads/trunk\tHEAD\n0123abcd\tHEAD\n").unwrap(), "trunk");
    assert!(matches!(parse_symref_head(""), Err(SymrefError::EmptyOutput)));
    match parse_symref_head("0123abcd\tHEAD\n") {
        Err(e @ SymrefError::UnexpectedLine { .. }) => {
            assert_eq!(e.message(), "unexpected ls-remote line: 0123abcd\tHEAD")
        }
        other => panic!("expected UnexpectedLine, got {other:?}"),
    }
    match parse_symref_head("ref: refs/tags/v1\tHEAD\n") {
        Err(SymrefError::UnexpectedTarget { target }) => assert_eq!(target, "refs/tags/v1"),
        other => panic!("expected UnexpectedTarget, got {other:?}"),
    }
    assert_eq!(parse_short_symref("origin/trunk\n"), "trunk");
    assert_eq!(parse_short_symref("something-else\n"), "main");
}

#[test]
fn workspace_git_state() {
    assert!(porcelain_has_changes(" M README.md\n"));
    assert!(!porcelain_has_changes("\n"));
    assert!(identity_needs_fallback(false, 10));
    assert!(identity_needs_fallback(true, 0));
    assert!(!identity_needs_fallback(true, 5));
    assert_eq!(
        commit_identity_fallbacks(),
        vec![
            ("user.email".to_string(), "palette-import@localhost".to_string()),
            ("user.name".to_string(), "Palette Plan Import".to_string()),
        ]
    );
}

#[test]
fn review_diff_commands() {
    let caps = diff_outputs("main...refs/palette/work/C-1", "craft");
    assert_eq!(caps.len(), 2);
    assert_eq!(caps[0].args, vec!["diff", "main...refs/palette/work/C-1"]);
    assert_eq!(caps[0].file, "diff.patch");
    assert_eq!(caps[0].description, "git diff (craft)");
    assert_eq!(caps[1].args, vec!["diff", "--name-only", "main...refs/palette/work/C-1"]);
    assert_eq!(caps[1].file, "changed_files.txt");
    assert_eq!(caps[1].description, "git diff --name-only (craft)");
    assert_eq!(pr_base_refspec("abc"), "+abc:refs/palette/base/abc");
    assert_eq!(pr_diff_range("abc", "def"), "abc...def");
    assert_eq!(craft_work_ref("C-1"), "refs/palette/work/C-1");
    assert_eq!(craft_fetch_refspec("feature/x", "refs/palette/work/C-1"), "+feature/x:refs/palette/work/C-1");
    assert_eq!(craft_diff_range("main", "refs/palette/work/C-1"), "main...refs/palette/work/C-1");
}

#[test]
fn craft_diff_source_branch() {
    assert_eq!(craft_source_branch(&repo(Some("develop")), Some("origin/trunk")), "develop");
    assert_eq!(craft_source_branch(&repo(None), Some("origin/trunk\n")), "trunk");
    assert_eq!(craft_source_branch(&repo(None), None), "main");
}

#[test]
fn check_results() {
    let detail = JobDetail::Orchestrator { command: Some("cargo test".to_string()) };
    assert_eq!(job_command(&detail), Some("cargo test".to_string()));
    assert_eq!(job_command(&JobDetail::Operator), None);
    let ok = CommandOutcome { success: true, stdout: "ok".to_string(), stderr: String::new(), exit_code: Some(0) };
    let r = check_result(&detail, &ok, 1500);
    assert_eq!(r.status, "success");
    assert_eq!(r.command, Some("cargo test".to_string()));
    assert_eq!(r.exit_code, Some(0));
    assert_eq!(r.stdout, "ok");
    assert_eq!(r.duration_ms, 1500);
    let t = timed_out_outcome();
    assert!(!t.success && t.exit_code.is_none());
    assert_eq!(t.stderr, "command timed out");
    assert_eq!(check_result(&detail, &t, 1).status, "failed");
    assert_eq!(launch_failed_outcome("spawn", "not found").stderr, "spawn error: not found");
    assert_eq!(status_after_check(true), JobStatus::Orchestrator(MechanizedStatus::Done));
    assert_eq!(status_after_check(false), JobStatus::Orchestrator(MechanizedStatus::Failed));
}
