use palette_orchestrator::domain::{
    Job, JobDetail, JobStatus, JobType, PullRequest, Repository, ReviewTarget,
};
use palette_orchestrator::job_instruction::format_job_instruction;
use palette_orchestrator::perspectives::{PerspectivePath, ValidatedPerspective, ValidatedPerspectives};
use palette_orchestrator::plan_location::PlanLocation;

fn plan_loc() -> PlanLocation {
    PlanLocation::OutsideWorkspace {
        blueprint_host_dir: "/tmp/bp".to_string(),
    }
}

fn plan_loc_inside() -> PlanLocation {
    PlanLocation::InsideWorkspace {
        blueprint_host_dir: "/host/ws/docs/plans/001".to_string(),
        blueprint_rel_to_workspace: "docs/plans/001".to_string(),
    }
}

fn make_review_job(perspective: Option<&str>) -> Job {
    Job {
        id: "R-001".to_string(),
        task_id: "wf-test:review-a".to_string(),
        title: "Review API".to_string(),
        plan_path: Some("plans/api".to_string()),
        assignee_id: None,
        status: JobStatus::todo(JobType::Review),
        detail: JobDetail::Review {
            perspective: perspective.map(|p| p.to_string()),
            target: ReviewTarget::CraftOutput,
        },
    }
}

fn make_craft_job() -> Job {
    Job {
        id: "C-001".to_string(),
        task_id: "wf-test:craft-a".to_string(),
        title: "Implement API".to_string(),
        plan_path: Some("plans/api".to_string()),
        assignee_id: None,
        status: JobStatus::todo(JobType::Craft),
        detail: JobDetail::Craft {
            repository: Repository {
                name: "x7c1/demo".to_string(),
                work_branch: "main".to_string(),
                source_branch: None,
            },
        },
    }
}

fn empty_perspectives() -> ValidatedPerspectives {
    ValidatedPerspectives {
        dirs: vec![],
        perspectives: vec![],
    }
}

#[test]
fn review_without_perspective() {
    let job = make_review_job(None);
    let msg = format_job_instruction(&job, Some(1), &empty_perspectives(), &plan_loc());

    assert!(msg.contains("Plan: /home/agent/plans/plans/api"));
    assert!(msg.contains("Round: 1"));
    assert!(msg.contains("Artifacts: /home/agent/artifacts/round-1/R-001/"));
    assert!(!msg.contains("Perspective"));
}

#[test]
fn review_with_perspective_includes_at_prefixed_paths() {
    let job = make_review_job(Some("rust-review"));
    let perspectives = ValidatedPerspectives {
        dirs: vec![("team-docs".to_string(), "/host/team-docs".to_string())],
        perspectives: vec![ValidatedPerspective {
            name: "rust-review".to_string(),
            paths: vec![
                PerspectivePath {
                    dir_name: "team-docs".to_string(),
                    relative_path: "compass/axioms".to_string(),
                },
                PerspectivePath {
                    dir_name: "team-docs".to_string(),
                    relative_path: "compass/principles".to_string(),
                },
            ],
        }],
    };

    let msg = format_job_instruction(&job, Some(1), &perspectives, &plan_loc());

    assert!(msg.contains("Perspective: rust-review"));
    assert!(msg.contains("Perspective Documents: /home/agent/perspective/"));
    assert!(msg.contains("1. @/home/agent/perspective/team-docs/compass/axioms"));
    assert!(msg.contains("2. @/home/agent/perspective/team-docs/compass/principles"));
}

#[test]
fn craft_job_includes_repository() {
    let job = make_craft_job();
    let msg = format_job_instruction(&job, None, &empty_perspectives(), &plan_loc());

    assert!(msg.contains("Repository: x7c1/demo (branch: main)"));
    assert!(!msg.contains("Round"));
    assert!(!msg.contains("Perspective"));
}

#[test]
fn inside_workspace_plan_path_uses_workspace_mount() {
    let job = make_craft_job();
    let msg = format_job_instruction(&job, None, &empty_perspectives(), &plan_loc_inside());

    assert!(
        msg.contains("Plan: /home/agent/workspace/docs/plans/001/plans/api"),
        "expected workspace-rooted plan path, got: {msg}"
    );
    assert!(!msg.contains("/home/agent/plans/"));
}

#[test]
fn craft_instruction_is_exact() {
    let job = make_craft_job();
    let msg = format_job_instruction(&job, None, &empty_perspectives(), &plan_loc());
    assert_eq!(
        msg,
        String::from(
            "## Task: Implement API\n\nID: C-001\nPlan: /home/agent/plans/plans/api\n\nRepository: x7c1/demo (branch: main)\n\nPlease begin working on this"
        ) + " task."
    );
}

#[test]
fn integrator_round_points_at_round_directory() {
    let job = Job {
        id: "RI-1".to_string(),
        task_id: "wf:ri".to_string(),
        title: "Integrate".to_string(),
        plan_path: None,
        assignee_id: None,
        status: JobStatus::todo(JobType::ReviewIntegrate),
        detail: JobDetail::ReviewIntegrate {
            target: ReviewTarget::CraftOutput,
        },
    };
    let msg = format_job_instruction(&job, Some(2), &empty_perspectives(), &plan_loc());
    assert!(msg.contains("\nRound: 2\nArtifacts: /home/agent/artifacts/round-2/\n"));
    assert!(!msg.contains("Plan:"));
}

#[test]
fn pull_request_review_names_the_pull_request() {
    let job = Job {
        id: "R-9".to_string(),
        task_id: "wf:r".to_string(),
        title: "Review PR".to_string(),
        plan_path: None,
        assignee_id: None,
        status: JobStatus::todo(JobType::Review),
        detail: JobDetail::Review {
            perspective: None,
            target: ReviewTarget::PullRequest(PullRequest {
                owner: "x7c1".to_string(),
                repo: "demo".to_string(),
                number: 42,
            }),
        },
    };
    let msg = format_job_instruction(&job, Some(1), &empty_perspectives(), &plan_loc());
    assert!(msg.contains(
        "\nPull Request: x7c1/demo#42\nWorkspace: /home/agent/workspace (read-only checkout of PR branch)\n"
    ));
}

#[test]
fn unknown_perspective_lists_no_priority_paths() {
    let job = make_review_job(Some("missing"));
    let msg = format_job_instruction(&job, Some(1), &empty_perspectives(), &plan_loc());
    assert!(msg.contains("Perspective: missing"));
    assert!(!msg.contains("Perspective Priority Paths"));
}
