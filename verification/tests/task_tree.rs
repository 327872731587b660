use palette_orchestrator::domain::{
    CraftStatus, Job, JobDetail, JobStatus, JobType, MechanizedStatus, Repository, ReviewStatus,
    ReviewTarget, Task, TaskStatus, WorkerRole, WorkerState, WorkerStatus,
};
use palette_orchestrator::task_rules::{
    child_tasks, composite_activation, find_craft_job_to_revert, find_craft_sibling_job,
    leaf_activation, parent_completion, task_completes, CompositeActivation, LeafActivation,
    ParentCompletion,
};
use palette_orchestrator::tasks::{
    find_ancestor_job, find_artifact_anchor, find_job_of_task, find_supervisor_for_job, find_task,
    SupervisorError,
};

fn task(id: &str, parent: Option<&str>, job_type: Option<JobType>, status: TaskStatus) -> Task {
    Task {
        id: id.to_string(),
        workflow_id: "wf".to_string(),
        parent_id: parent.map(|p| p.to_string()),
        status,
        job_type,
        plan_path: None,
    }
}

fn detail(t: JobType) -> JobDetail {
    match t {
        JobType::Craft => JobDetail::Craft {
            repository: Repository {
                name: "x7c1/demo".to_string(),
                work_branch: "feature/x".to_string(),
                source_branch: None,
            },
        },
        JobType::Review => JobDetail::Review { perspective: None, target: ReviewTarget::CraftOutput },
        JobType::ReviewIntegrate => JobDetail::ReviewIntegrate { target: ReviewTarget::CraftOutput },
        JobType::Orchestrator => JobDetail::Orchestrator { command: Some("cargo test".to_string()) },
        JobType::Operator => JobDetail::Operator,
    }
}

fn job(id: &str, task_id: &str, t: JobType, status: JobStatus) -> Job {
    Job {
        id: id.to_string(),
        task_id: task_id.to_string(),
        title: id.to_string(),
        plan_path: None,
        assignee_id: Some(format!("member-{id}")),
        status,
        detail: detail(t),
    }
}

/// root ─ impl (craft) ─ review-a, review-b
///      └ check (orchestrator)
fn tree() -> (Vec<Task>, Vec<Job>) {
    let ts = vec![
        task("root", None, None, TaskStatus::InProgress),
        task("impl", Some("root"), Some(JobType::Craft), TaskStatus::InProgress),
        task("review-a", Some("impl"), Some(JobType::Review), TaskStatus::Ready),
        task("review-b", Some("impl"), Some(JobType::Review), TaskStatus::Completed),
        task("check", Some("root"), Some(JobType::Orchestrator), TaskStatus::Pending),
    ];
    let js = vec![
        job("C-1", "impl", JobType::Craft, JobStatus::Craft(CraftStatus::InReview)),
        job("R-1", "review-a", JobType::Review, JobStatus::Review(ReviewStatus::InProgress)),
        job("R-2", "review-b", JobType::Review, JobStatus::Review(ReviewStatus::Done)),
        job("O-1", "check", JobType::Orchestrator, JobStatus::Orchestrator(MechanizedStatus::Todo)),
    ];
    (ts, js)
}

#[test]
fn finds_tasks_and_jobs() {
    let (ts, js) = tree();
    assert_eq!(find_task(&ts, "review-b"), Some(3));
    assert_eq!(find_task(&ts, "nope"), None);
    assert_eq!(find_job_of_task(&js, "check"), Some(3));
    assert_eq!(child_tasks(&ts, "impl"), vec![2, 3]);
    assert_eq!(child_tasks(&ts, "review-a"), Vec::<usize>::new());
}

#[test]
fn ancestors_and_anchors() {
    let (ts, js) = tree();
    assert_eq!(find_ancestor_job(&ts, &js, "review-a", JobType::Craft), Some(0));
    assert_eq!(find_ancestor_job(&ts, &js, "impl", JobType::Craft), None);
    assert_eq!(find_artifact_anchor(&ts, &js, "review-a"), Some(0));
}

#[test]
fn standalone_review_is_anchored_at_its_integrator() {
    let ts = vec![
        task("ri", None, Some(JobType::ReviewIntegrate), TaskStatus::InProgress),
        task("r", Some("ri"), Some(JobType::Review), TaskStatus::Ready),
    ];
    let js = vec![
        job("RI-1", "ri", JobType::ReviewIntegrate, JobStatus::ReviewIntegrate(ReviewStatus::Todo)),
        job("R-1", "r", JobType::Review, JobStatus::Review(ReviewStatus::Todo)),
    ];
    assert_eq!(find_artifact_anchor(&ts, &js, "r"), Some(0));
    assert_eq!(find_artifact_anchor(&ts, &js, "ri"), Some(0));
}

#[test]
fn task_completes_when_children_are_completed() {
    let (mut ts, _) = tree();
    let done = JobStatus::Craft(CraftStatus::Done);
    assert!(!task_completes(&ts, "impl", done));
    assert!(task_completes(&ts, "review-a", JobStatus::Review(ReviewStatus::Done)));
    ts[2].status = TaskStatus::Completed;
    assert!(task_completes(&ts, "impl", done));
    // A task whose own job is not done does not complete, children or not.
    assert!(!task_completes(&ts, "impl", JobStatus::Craft(CraftStatus::InReview)));
    assert!(!task_completes(&ts, "review-a", JobStatus::Review(ReviewStatus::InProgress)));
}

#[test]
fn parent_completion_waits_for_own_job() {
    let (ts, mut js) = tree();
    assert_eq!(parent_completion(&ts, &js, "impl"), ParentCompletion::Defer);
    js[0].status = JobStatus::Craft(CraftStatus::Done);
    assert_eq!(parent_completion(&ts, &js, "impl"), ParentCompletion::Complete { workflow_done: false });
    assert_eq!(parent_completion(&ts, &js, "root"), ParentCompletion::Complete { workflow_done: true });
}

#[test]
fn review_integration_parent_spawns_integrator() {
    let ts = vec![task("ri", None, Some(JobType::ReviewIntegrate), TaskStatus::InProgress)];
    let js = vec![job("RI-1", "ri", JobType::ReviewIntegrate, JobStatus::ReviewIntegrate(ReviewStatus::Todo))];
    assert_eq!(parent_completion(&ts, &js, "ri"), ParentCompletion::SpawnReviewIntegrator);
}

#[test]
fn composite_activation_by_job_type() {
    let t = |jt| task("x", None, jt, TaskStatus::Ready);
    assert_eq!(composite_activation(&t(None)), CompositeActivation::SpawnApprover);
    assert_eq!(
        composite_activation(&t(Some(JobType::Craft))),
        CompositeActivation::CreateAndAssign { resolve_children: false }
    );
    assert_eq!(composite_activation(&t(Some(JobType::ReviewIntegrate))), CompositeActivation::CreateOnly);
    assert_eq!(
        composite_activation(&t(Some(JobType::Review))),
        CompositeActivation::CreateAndAssign { resolve_children: true }
    );
}

#[test]
fn review_leaf_inherits_parent_plan() {
    let mut ts = vec![
        task("impl", None, Some(JobType::Craft), TaskStatus::InProgress),
        task("rev", Some("impl"), Some(JobType::Review), TaskStatus::Ready),
        task("grp", None, None, TaskStatus::Ready),
    ];
    ts[0].plan_path = Some("plans/impl".to_string());
    match leaf_activation(&ts, "rev") {
        LeafActivation::CreateJob { plan_path } => assert_eq!(plan_path, Some("plans/impl".to_string())),
        other => panic!("expected a job, got {other:?}"),
    }
    assert!(matches!(leaf_activation(&ts, "grp"), LeafActivation::Nothing));
    assert!(matches!(leaf_activation(&ts, "missing"), LeafActivation::Nothing));
}

#[test]
fn orchestrator_task_finds_its_craft_sibling() {
    let (ts, js) = tree();
    assert_eq!(find_craft_sibling_job(&ts, &js, "check"), Some(0));
    assert_eq!(find_craft_job_to_revert(&ts, &js, "check"), Some(0));
    assert_eq!(find_craft_sibling_job(&ts, &js, "root"), None);
}

#[test]
fn revert_skips_craft_siblings_without_a_job() {
    let ts = vec![
        task("root", None, None, TaskStatus::InProgress),
        task("impl-0", Some("root"), Some(JobType::Craft), TaskStatus::Pending),
        task("impl-1", Some("root"), Some(JobType::Craft), TaskStatus::InProgress),
        task("check", Some("root"), Some(JobType::Orchestrator), TaskStatus::Ready),
    ];
    let js = vec![job("C-2", "impl-1", JobType::Craft, JobStatus::Craft(CraftStatus::InProgress))];
    assert_eq!(find_craft_sibling_job(&ts, &js, "check"), None);
    assert_eq!(find_craft_job_to_revert(&ts, &js, "check"), Some(0));
}

fn supervisor(id: &str, task_id: &str, role: WorkerRole) -> WorkerState {
    WorkerState {
        id: id.to_string(),
        workflow_id: "wf".to_string(),
        role,
        supervisor_id: None,
        container_id: format!("container-{id}"),
        terminal_target: format!("pane-{id}"),
        status: WorkerStatus::Idle,
        session_id: None,
        task_id: task_id.to_string(),
    }
}

#[test]
fn supervisor_is_found_up_the_tree() {
    let (ts, _) = tree();
    let workers = vec![
        supervisor("m-9", "impl", WorkerRole::Member),
        supervisor("approver-1", "root", WorkerRole::Approver),
    ];
    assert_eq!(find_supervisor_for_job(&ts, &workers, "review-a").unwrap(), "approver-1");
    assert!(matches!(
        find_supervisor_for_job(&ts, &vec![], "review-a"),
        Err(SupervisorError::NoSupervisor)
    ));
    match find_supervisor_for_job(&ts, &vec![], "ghost") {
        Err(SupervisorError::TaskNotFound { task_id }) => assert_eq!(task_id, "ghost"),
        other => panic!("expected TaskNotFound, got {other:?}"),
    }
}
