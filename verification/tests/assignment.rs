use palette_orchestrator::domain::{
    CraftStatus, Job, JobDetail, JobStatus, JobType, PullRequest, Repository, ReviewStatus,
    ReviewTarget, Task, TaskStatus, WorkerRole,
};
use palette_orchestrator::perspectives::{PerspectivePath, ValidatedPerspective, ValidatedPerspectives};
use palette_orchestrator::spawn::{
    artifacts_plan, assignment_gate, mechanized_action, member_setup, perspective_mounts,
    supervisor_artifacts_anchor, supervisor_setup, workspace_owner, workspace_plan,
    workspace_released_with_member, AssignmentGate,
    MechanizedAction, MemberPrompt, SupervisorKind, SupervisorSpawnError, WorkspacePlan,
};

fn task(id: &str, parent: Option<&str>, job_type: Option<JobType>) -> Task {
    Task {
        id: id.to_string(),
        workflow_id: "wf".to_string(),
        parent_id: parent.map(|p| p.to_string()),
        status: TaskStatus::InProgress,
        job_type,
        plan_path: None,
    }
}

fn repo() -> Repository {
    Repository {
        name: "x7c1/demo".to_string(),
        work_branch: "feature/x".to_string(),
        source_branch: Some("develop".to_string()),
    }
}

fn job(id: &str, task_id: &str, detail: JobDetail) -> Job {
    let status = JobStatus::todo(detail.job_type());
    Job {
        id: id.to_string(),
        task_id: task_id.to_string(),
        title: id.to_string(),
        plan_path: None,
        assignee_id: None,
        status,
        detail,
    }
}

fn craft_review_tree() -> (Vec<Task>, Vec<Job>) {
    let ts = vec![
        task("impl", None, Some(JobType::Craft)),
        task("rev", Some("impl"), Some(JobType::Review)),
    ];
    let js = vec![
        job("C-1", "impl", JobDetail::Craft { repository: repo() }),
        job("R-1", "rev", JobDetail::Review { perspective: None, target: ReviewTarget::CraftOutput }),
    ];
    (ts, js)
}

#[test]
fn assignment_waits_while_suspending_or_full() {
    assert_eq!(assignment_gate(true, 0, 3, JobType::Craft), AssignmentGate::Suspending);
    assert_eq!(assignment_gate(false, 3, 3, JobType::Craft), AssignmentGate::AtCapacity);
    assert_eq!(assignment_gate(false, 1, 3, JobType::Orchestrator), AssignmentGate::Mechanized);
    assert_eq!(assignment_gate(false, 1, 3, JobType::Review), AssignmentGate::SpawnMember);
}

#[test]
fn mechanized_jobs() {
    match mechanized_action(&JobDetail::Orchestrator { command: Some("cargo test".to_string()) }) {
        MechanizedAction::RunCommand { command } => assert_eq!(command, "cargo test"),
        other => panic!("expected a command, got {other:?}"),
    }
    assert!(matches!(mechanized_action(&JobDetail::Orchestrator { command: None }), MechanizedAction::MissingCommand));
    assert!(matches!(mechanized_action(&JobDetail::Operator), MechanizedAction::AwaitOperator));
    assert!(matches!(mechanized_action(&JobDetail::Craft { repository: repo() }), MechanizedAction::Nothing));
}

#[test]
fn workspaces_by_job_kind() {
    let (ts, js) = craft_review_tree();
    match workspace_plan(&ts, &js, &js[0]) {
        WorkspacePlan::Clone { repository, read_only } => {
            assert_eq!(repository.name, "x7c1/demo");
            assert_eq!(repository.source_branch, Some("develop".to_string()));
            assert!(!read_only);
        }
        other => panic!("expected a clone, got {other:?}"),
    }
    assert!(matches!(workspace_plan(&ts, &js, &js[1]), WorkspacePlan::ShareCraft { craft_job: 0 }));
    let pr_job = job(
        "R-9",
        "rev-pr",
        JobDetail::Review {
            perspective: None,
            target: ReviewTarget::PullRequest(PullRequest { owner: "x7c1".to_string(), repo: "demo".to_string(), number: 5 }),
        },
    );
    match workspace_plan(&ts, &js, &pr_job) {
        WorkspacePlan::Clone { repository, read_only } => {
            assert_eq!(repository.name, "x7c1/demo");
            assert_eq!(repository.work_branch, "main");
            assert!(read_only);
        }
        other => panic!("expected a clone, got {other:?}"),
    }
    let orphan = job("R-2", "nowhere", JobDetail::Review { perspective: None, target: ReviewTarget::CraftOutput });
    assert!(matches!(workspace_plan(&ts, &js, &orphan), WorkspacePlan::NoWorkspace));
    let ri = job("RI-1", "ri", JobDetail::ReviewIntegrate { target: ReviewTarget::CraftOutput });
    assert!(matches!(workspace_plan(&ts, &js, &ri), WorkspacePlan::NoWorkspace));
    assert_eq!(workspace_owner(&ts, &js, &js[1]), Some("C-1".to_string()));
    assert_eq!(workspace_owner(&ts, &js, &js[0]), Some("C-1".to_string()));
    assert_eq!(workspace_owner(&ts, &js, &pr_job), Some("R-9".to_string()));
    assert_eq!(workspace_owner(&ts, &js, &ri), None);
}

#[test]
fn artifacts_by_job_kind() {
    let (ts, js) = craft_review_tree();
    let craft = artifacts_plan(&ts, &js, &js[0]).unwrap();
    assert_eq!(craft.anchor_job_id, "C-1");
    assert!(craft.read_only && !craft.precreate_review_dir);
    let review = artifacts_plan(&ts, &js, &js[1]).unwrap();
    assert_eq!(review.anchor_job_id, "C-1");
    assert!(!review.read_only && review.precreate_review_dir);
    let op = job("OP-1", "op", JobDetail::Operator);
    assert!(artifacts_plan(&ts, &js, &op).is_none());
}

#[test]
fn perspective_directories_are_mounted_once() {
    let ps = ValidatedPerspectives {
        dirs: vec![
            ("team-docs".to_string(), "/host/team-docs".to_string()),
            ("style".to_string(), "/host/style".to_string()),
        ],
        perspectives: vec![ValidatedPerspective {
            name: "rust-review".to_string(),
            paths: vec![
                PerspectivePath { dir_name: "team-docs".to_string(), relative_path: "a".to_string() },
                PerspectivePath { dir_name: "style".to_string(), relative_path: "b".to_string() },
                PerspectivePath { dir_name: "team-docs".to_string(), relative_path: "c".to_string() },
                PerspectivePath { dir_name: "gone".to_string(), relative_path: "d".to_string() },
            ],
        }],
    };
    let detail = JobDetail::Review { perspective: Some("rust-review".to_string()), target: ReviewTarget::CraftOutput };
    let mounts = perspective_mounts(&ps, &detail);
    let pairs: Vec<(&str, &str)> = mounts.iter().map(|m| (m.host_path.as_str(), m.container_path.as_str())).collect();
    assert_eq!(
        pairs,
        vec![
            ("/host/team-docs", "/home/agent/perspective/team-docs"),
            ("/host/style", "/home/agent/perspective/style"),
        ]
    );
    let none = JobDetail::Review { perspective: None, target: ReviewTarget::CraftOutput };
    assert!(perspective_mounts(&ps, &none).is_empty());
    let unknown = JobDetail::Review { perspective: Some("x".to_string()), target: ReviewTarget::CraftOutput };
    assert!(perspective_mounts(&ps, &unknown).is_empty());
}

#[test]
fn member_containers() {
    let c = member_setup(JobType::Craft, true);
    assert_eq!(c.prompt, MemberPrompt::Crafter);
    assert!(!c.plan_dir_read_only);
    assert_eq!(c.workdir, Some("/home/agent/workspace".to_string()));
    let r = member_setup(JobType::Review, false);
    assert_eq!(r.prompt, MemberPrompt::Review);
    assert!(r.plan_dir_read_only);
    assert_eq!(r.workdir, None);
}

#[test]
fn supervisors() {
    let a = supervisor_setup(WorkerRole::Approver).unwrap();
    assert_eq!(a.kind, SupervisorKind::Approver);
    assert!(!a.integrates_reviews);
    let ri = supervisor_setup(WorkerRole::ReviewIntegrator).unwrap();
    assert!(ri.integrates_reviews);
    let err = supervisor_setup(WorkerRole::Member).unwrap_err();
    assert_eq!(err, SupervisorSpawnError::MemberRole);
    assert_eq!(err.message(), "cannot spawn a supervisor with Member role");

    let ts = vec![task("impl", None, Some(JobType::Craft)), task("ri", Some("impl"), Some(JobType::ReviewIntegrate))];
    let js = vec![job("C-1", "impl", JobDetail::Craft { repository: repo() })];
    assert_eq!(supervisor_artifacts_anchor(&ts, &js, "ri"), Some(0));
    assert_eq!(supervisor_artifacts_anchor(&ts, &js, "impl"), None);
}

#[test]
fn job_status_helpers() {
    assert!(JobStatus::Craft(CraftStatus::Done).is_done());
    assert!(!JobStatus::Review(ReviewStatus::ChangesRequested).is_done());
    assert!(JobStatus::Review(ReviewStatus::InProgress).is_in_progress());
    assert_eq!(JobStatus::todo(JobType::Operator), JobStatus::Operator(palette_orchestrator::domain::MechanizedStatus::Todo));
    assert!(JobType::Craft.needs_worker());
    assert!(!JobType::ReviewIntegrate.needs_worker());
    assert!(WorkerRole::Approver.is_supervisor());
    assert!(!WorkerRole::Member.is_supervisor());
    let pr = PullRequest { owner: "x7c1".to_string(), repo: "demo".to_string(), number: 12 };
    assert_eq!(pr.display(), "x7c1/demo#12");
}

#[test]
fn destroying_a_crafter_releases_its_workspace() {
    let (_, js) = craft_review_tree();
    assert_eq!(workspace_released_with_member(&js, "impl"), Some(0));
    assert_eq!(workspace_released_with_member(&js, "rev"), None);
    assert_eq!(workspace_released_with_member(&js, "none"), None);
}
