use palette_orchestrator::domain::{
    CraftStatus, Job, JobDetail, JobStatus, JobType, Repository, ReviewStatus, ReviewTarget, Task,
    TaskStatus,
};
use palette_orchestrator::review::{
    check_failed_report, compose_pr_review, current_review_round, latest_round, max_round,
    missing_integrated_review_instruction, missing_review_instruction, review_feedback,
    IntegratedReview, IntegratedReviewComment, ReviewEvent, ReviewSubmission, Verdict,
};
use palette_orchestrator::review_cycle::{
    check_review_artifacts, craft_completed_by_approval, craft_reverted_by_changes,
    find_child_jobs, reactivated_status, reviews_done, status_reactions, submission_step, ChildJobs,
    SubmissionStep,
};

fn task(id: &str, parent: Option<&str>, job_type: Option<JobType>) -> Task {
    Task {
        id: id.to_string(),
        workflow_id: "wf".to_string(),
        parent_id: parent.map(|p| p.to_string()),
        status: TaskStatus::InProgress,
        job_type,
        plan_path: None,
    }
}

fn job(id: &str, task_id: &str, status: JobStatus, assignee: Option<&str>) -> Job {
    let detail = match status {
        JobStatus::Craft(_) => JobDetail::Craft {
            repository: Repository {
                name: "x7c1/demo".to_string(),
                work_branch: "feature/x".to_string(),
                source_branch: None,
            },
        },
        _ => JobDetail::Review { perspective: None, target: ReviewTarget::CraftOutput },
    };
    Job {
        id: id.to_string(),
        task_id: task_id.to_string(),
        title: id.to_string(),
        plan_path: None,
        assignee_id: assignee.map(|a| a.to_string()),
        status,
        detail,
    }
}

fn review_tree(a: ReviewStatus, b: ReviewStatus, craft: CraftStatus) -> (Vec<Task>, Vec<Job>) {
    let ts = vec![
        task("impl", None, Some(JobType::Craft)),
        task("rev-a", Some("impl"), Some(JobType::Review)),
        task("rev-b", Some("impl"), Some(JobType::Review)),
        task("ri", Some("impl"), Some(JobType::ReviewIntegrate)),
    ];
    let js = vec![
        job("C-1", "impl", JobStatus::Craft(craft), Some("member-c")),
        job("R-1", "rev-a", JobStatus::Review(a), Some("member-a")),
        job("R-2", "rev-b", JobStatus::Review(b), None),
    ];
    (ts, js)
}

#[test]
fn approval_completes_craft_only_when_all_reviews_done() {
    let (ts, js) = review_tree(ReviewStatus::Done, ReviewStatus::InProgress, CraftStatus::InReview);
    assert!(!reviews_done(&ts, &js, "impl"));
    assert_eq!(craft_completed_by_approval(&ts, &js, "rev-a"), None);
    let (ts, js) = review_tree(ReviewStatus::Done, ReviewStatus::Done, CraftStatus::InReview);
    assert!(reviews_done(&ts, &js, "impl"));
    assert_eq!(craft_completed_by_approval(&ts, &js, "rev-b"), Some(0));
}

#[test]
fn approval_ignores_craft_not_in_review() {
    let (ts, js) = review_tree(ReviewStatus::Done, ReviewStatus::Done, CraftStatus::InProgress);
    assert_eq!(craft_completed_by_approval(&ts, &js, "rev-a"), None);
    assert_eq!(craft_reverted_by_changes(&ts, &js, "rev-a"), None);
}

#[test]
fn changes_requested_reverts_craft_in_review() {
    let (ts, js) = review_tree(ReviewStatus::ChangesRequested, ReviewStatus::Done, CraftStatus::InReview);
    assert_eq!(craft_reverted_by_changes(&ts, &js, "rev-a"), Some(0));
    assert_eq!(craft_reverted_by_changes(&ts, &js, "impl"), None);
}

#[test]
fn re_review_restarts_only_changes_requested_reviews() {
    let (ts, js) = review_tree(ReviewStatus::ChangesRequested, ReviewStatus::Done, CraftStatus::InReview);
    assert_eq!(find_child_jobs(&ts, &js, "impl", ChildJobs::AwaitingRestart), vec![1]);
    assert_eq!(find_child_jobs(&ts, &js, "impl", ChildJobs::Reviews), vec![1, 2]);
    assert_eq!(reactivated_status(JobType::Review), Some(JobStatus::Review(ReviewStatus::InProgress)));
    assert_eq!(reactivated_status(JobType::Craft), Some(JobStatus::Craft(CraftStatus::InProgress)));
    assert_eq!(reactivated_status(JobType::ReviewIntegrate), None);
}

#[test]
fn missing_review_md_reinstructs_assigned_members() {
    let (ts, js) = review_tree(ReviewStatus::Done, ReviewStatus::Done, CraftStatus::InReview);
    let reviews = find_child_jobs(&ts, &js, "impl", ChildJobs::Reviews);
    let check = check_review_artifacts(&js, &reviews, &vec![false, false], true, 2);
    assert!(!check.all_present);
    assert_eq!(
        check.reinstructions,
        vec![(
            "member-a".to_string(),
            "## Missing Artifact\n\nYour review.md file was not found at the expected location.\nPlease write your review to: /home/agent/artifacts/round-2/R-1/review.md\n\nWrite the file first, then re-submit your review.".to_string()
        )]
    );
    let ok = check_review_artifacts(&js, &reviews, &vec![true, true], true, 2);
    assert!(ok.all_present && ok.reinstructions.is_empty());
    let no_round = check_review_artifacts(&js, &reviews, &vec![false, false], false, 2);
    assert!(no_round.all_present && no_round.reinstructions.is_empty());
}

#[test]
fn integrated_review_instruction_names_round_file() {
    assert_eq!(
        missing_integrated_review_instruction(3),
        "## Missing Artifact\n\nYour integrated-review.json file was not found at the expected location.\nPlease write the integrated review to: /home/agent/artifacts/round-3/integrated-review.json\n\nFollow the format described in your prompt."
    );
    assert_eq!(missing_review_instruction(1, "R-7").lines().nth(3).unwrap(), "Please write your review to: /home/agent/artifacts/round-1/R-7/review.md");
}

#[test]
fn submission_steps() {
    assert_eq!(submission_step(true, false, Some(Verdict::Approved)), SubmissionStep::Blocked);
    assert_eq!(submission_step(false, false, None), SubmissionStep::NoSubmission);
    assert_eq!(
        submission_step(true, true, Some(Verdict::Approved)),
        SubmissionStep::Apply {
            verdict: Verdict::Approved,
            status: JobStatus::Review(ReviewStatus::Done),
            release_member: true
        }
    );
    assert_eq!(
        submission_step(false, false, Some(Verdict::ChangesRequested)),
        SubmissionStep::Apply {
            verdict: Verdict::ChangesRequested,
            status: JobStatus::Review(ReviewStatus::ChangesRequested),
            release_member: false
        }
    );
}

fn sub(round: u32, summary: Option<&str>) -> ReviewSubmission {
    ReviewSubmission { round, verdict: Verdict::ChangesRequested, summary: summary.map(|s| s.to_string()) }
}

#[test]
fn rounds() {
    assert_eq!(current_review_round(0), 1);
    assert_eq!(current_review_round(2), 3);
    assert_eq!(latest_round(&vec![]), 1);
    assert_eq!(latest_round(&vec![sub(1, None), sub(2, None)]), 2);
    assert_eq!(max_round(&vec![]), 1);
    assert_eq!(max_round(&vec![2, 5, 3]), 5);
}

#[test]
fn feedback_uses_latest_summary() {
    assert_eq!(
        review_feedback("R-1", &vec![sub(1, Some("old")), sub(2, Some("fix the tests"))]),
        "## Review Feedback (changes requested)\n\nReview job R-1 has requested changes:\n\nfix the tests\n\nPlease address the feedback and complete the task."
    );
    assert!(review_feedback("R-1", &vec![sub(1, None)]).contains("\n\nChanges requested (no summary provided)\n\n"));
    assert!(review_feedback("R-1", &vec![]).contains("Changes requested (no summary provided)"));
}

#[test]
fn failed_check_report_truncates_error_output() {
    let stderr = "e".repeat(5000);
    let msg = check_failed_report("cargo test", "C-1", &stderr);
    assert!(msg.starts_with("## Automated Check Failed\n\nCommand: cargo test\nExit code: C-1\n\n```\n"));
    assert!(msg.ends_with("\n```\n\nPlease fix the issues and try again."));
    let start = msg.find("```\n").unwrap() + 4;
    let end = msg.rfind("\n```").unwrap();
    assert_eq!(&msg[start..end], "e".repeat(4000));
    let short = check_failed_report("make", "C-2", "boom");
    assert!(short.contains("```\nboom\n```"));
}

fn comment(path: &str, line: u64, body: &str) -> IntegratedReviewComment {
    IntegratedReviewComment { path: path.to_string(), line, body: body.to_string() }
}

#[test]
fn pr_review_folds_comments_outside_the_diff() {
    let review = IntegratedReview {
        body: "Looks mostly good".to_string(),
        comments: vec![comment("src/a.rs", 3, "rename"), comment("docs/x.md", 7, "typo")],
    };
    let pr = compose_pr_review(&review, &vec!["src/a.rs".to_string()], Some(Verdict::ChangesRequested));
    assert_eq!(pr.event, ReviewEvent::RequestChanges);
    assert_eq!(pr.comments.len(), 1);
    assert_eq!(pr.comments[0].path, "src/a.rs");
    assert_eq!(pr.comments[0].line, 3);
    assert_eq!(
        pr.body,
        "Looks mostly good\n\n---\n\nComments on files outside this PR's diff:\n\n**docs/x.md:7** — typo"
    );
}

#[test]
fn pr_review_keeps_body_when_all_comments_inline() {
    let review = IntegratedReview {
        body: "Ship it".to_string(),
        comments: vec![comment("src/a.rs", 1, "nit")],
    };
    let pr = compose_pr_review(&review, &vec!["src/a.rs".to_string()], Some(Verdict::Approved));
    assert_eq!(pr.body, "Ship it");
    assert_eq!(pr.event, ReviewEvent::Approve);
    let none = compose_pr_review(&review, &vec![], None);
    assert_eq!(none.event, ReviewEvent::RequestChanges);
    assert!(none.comments.is_empty());
}

#[test]
fn status_changes_set_off_reactions() {
    let r = status_reactions(JobStatus::Craft(CraftStatus::InReview));
    assert!(r.activate_reviews && !r.revert_parent_craft && !r.complete_parent_craft && !r.complete_task);
    let r = status_reactions(JobStatus::Review(ReviewStatus::ChangesRequested));
    assert!(!r.activate_reviews && r.revert_parent_craft && !r.complete_parent_craft && !r.complete_task);
    let r = status_reactions(JobStatus::Review(ReviewStatus::Done));
    assert!(r.complete_parent_craft && r.complete_task);
    let r = status_reactions(JobStatus::Craft(CraftStatus::Done));
    assert!(!r.complete_parent_craft && r.complete_task);
}

#[test]
fn approved_review_produces_done_and_destroy() {
    match submission_step(false, true, Some(Verdict::Approved)) {
        SubmissionStep::Apply { status, release_member, .. } => {
            assert_eq!(status, JobStatus::Review(ReviewStatus::Done));
            assert!(release_member);
        }
        other => panic!("expected Apply, got {other:?}"),
    }
}

#[test]
fn changes_requested_sets_review_status() {
    match submission_step(false, true, Some(Verdict::ChangesRequested)) {
        SubmissionStep::Apply { status, release_member, .. } => {
            assert_eq!(status, JobStatus::Review(ReviewStatus::ChangesRequested));
            assert!(!release_member);
        }
        other => panic!("expected Apply, got {other:?}"),
    }
}
