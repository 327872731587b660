use palette_orchestrator::domain::{
    CraftStatus, Job, JobDetail, JobStatus, JobType, ReviewStatus, ReviewTarget, WorkerRole,
    WorkerState, WorkerStatus, WorkflowStatus,
};
use palette_orchestrator::lifecycle::{
    delivery_action, job_worker_inconsistencies, needs_resume_nudge, orphan_containers,
    pane_shows_prompt, pending_outcome, plan_suspend,
    readiness_action, readiness_poll_budget, suspend_keeps_waiting, terminated_on_shutdown,
    AssigneeLookup, DeliveryAction, Inconsistency, PendingOutcome, ReadinessAction,
};

fn make_worker(id: &str, role: WorkerRole, status: WorkerStatus) -> WorkerState {
    WorkerState {
        id: id.to_string(),
        workflow_id: "wf-test".to_string(),
        role,
        supervisor_id: Some("sup-1".to_string()),
        container_id: format!("container-{id}"),
        terminal_target: format!("pane-{id}"),
        status,
        session_id: None,
        task_id: format!("wf-test:{id}"),
    }
}

fn make_job(id: &str) -> Job {
    Job {
        id: id.to_string(),
        task_id: format!("wf-test:{id}"),
        title: id.to_string(),
        plan_path: Some(format!("test/{id}")),
        assignee_id: None,
        status: JobStatus::todo(JobType::Review),
        detail: JobDetail::Review {
            perspective: None,
            target: ReviewTarget::CraftOutput,
        },
    }
}

/// What the store says of the assignee of `job` among `workers`.
fn lookup(job: &Job, workers: &[WorkerState]) -> AssigneeLookup {
    match &job.assignee_id {
        None => AssigneeLookup::Missing,
        Some(a) => match workers.iter().find(|w| &w.id == a) {
            Some(w) => AssigneeLookup::Found(w.status),
            None => AssigneeLookup::Missing,
        },
    }
}

fn inconsistencies(jobs: Vec<Job>, workers: &[WorkerState]) -> usize {
    let lookups: Vec<AssigneeLookup> = jobs.iter().map(|j| lookup(j, workers)).collect();
    job_worker_inconsistencies(&jobs, &lookups).len()
}

#[test]
fn consistency_detects_idle_worker_with_in_progress_job() {
    let workers = vec![make_worker("m-1", WorkerRole::Member, WorkerStatus::Idle)];
    let mut job = make_job("C-1");
    job.assignee_id = Some("m-1".to_string());
    job.status = JobStatus::Craft(CraftStatus::InProgress);
    assert_eq!(inconsistencies(vec![job], &workers), 1);
}

#[test]
fn consistency_detects_job_assigned_to_missing_worker() {
    let workers = vec![make_worker("m-2", WorkerRole::Member, WorkerStatus::Working)];
    let mut job = make_job("C-1");
    job.assignee_id = Some("m-1".to_string());
    job.status = JobStatus::Craft(CraftStatus::InProgress);
    assert_eq!(inconsistencies(vec![job], &workers), 1);
}

#[test]
fn consistency_ignores_done_jobs() {
    let workers = vec![make_worker("m-1", WorkerRole::Member, WorkerStatus::Idle)];
    let mut job = make_job("C-1");
    job.assignee_id = Some("m-1".to_string());
    job.status = JobStatus::Craft(CraftStatus::Done);
    assert_eq!(inconsistencies(vec![job], &workers), 0);
}

#[test]
fn consistency_ignores_working_worker() {
    let workers = vec![make_worker("m-1", WorkerRole::Member, WorkerStatus::Working)];
    let mut job = make_job("C-1");
    job.assignee_id = Some("m-1".to_string());
    job.status = JobStatus::Craft(CraftStatus::InProgress);
    assert_eq!(inconsistencies(vec![job], &workers), 0);
}

#[test]
fn inconsistencies_report_job_positions_and_kinds() {
    let mut a = make_job("A");
    a.assignee_id = Some("m-1".to_string());
    let b = make_job("B");
    let mut c = make_job("C");
    c.assignee_id = Some("m-9".to_string());
    let r = job_worker_inconsistencies(
        &vec![a, b, c],
        &vec![
            AssigneeLookup::Found(WorkerStatus::Idle),
            AssigneeLookup::Missing,
            AssigneeLookup::Missing,
        ],
    );
    assert_eq!(r, vec![(0, Inconsistency::IdleAssignee), (2, Inconsistency::MissingAssignee)]);
}

#[test]
fn recover_from_crash_recovery_delivers_queued_messages_to_idle_worker() {
    assert_eq!(
        delivery_action(Some(WorkerStatus::Idle), WorkerRole::Member, false, true, true),
        DeliveryAction::Deliver
    );
    assert_eq!(
        delivery_action(Some(WorkerStatus::Working), WorkerRole::Member, false, true, true),
        DeliveryAction::Skip
    );
    assert_eq!(delivery_action(None, WorkerRole::Member, false, true, true), DeliveryAction::Skip);
    assert_eq!(
        delivery_action(Some(WorkerStatus::Idle), WorkerRole::Member, true, true, true),
        DeliveryAction::Skip
    );
    assert_eq!(
        delivery_action(Some(WorkerStatus::Idle), WorkerRole::Approver, true, true, true),
        DeliveryAction::Deliver
    );
    assert_eq!(
        delivery_action(Some(WorkerStatus::Idle), WorkerRole::Member, false, false, true),
        DeliveryAction::Restart
    );
    assert_eq!(
        delivery_action(Some(WorkerStatus::Idle), WorkerRole::Member, false, true, false),
        DeliveryAction::Defer
    );
}

#[test]
fn readiness_polls_decide() {
    assert_eq!(readiness_action(false, Some(true), false, true), ReadinessAction::Stop);
    assert_eq!(readiness_action(true, None, false, false), ReadinessAction::Wait);
    assert_eq!(readiness_action(true, Some(true), false, true), ReadinessAction::Activate);
    assert_eq!(readiness_action(true, Some(false), false, false), ReadinessAction::FreshStart);
    assert_eq!(readiness_action(true, Some(false), true, false), ReadinessAction::Wait);
    assert!(readiness_poll_budget() > 0);
}

#[test]
fn resumed_worker_with_job_in_progress_is_nudged() {
    let mut job = make_job("R-1");
    assert!(!needs_resume_nudge(&vec![job.clone()]));
    job.status = JobStatus::Review(ReviewStatus::InProgress);
    assert!(needs_resume_nudge(&vec![job]));
}

#[test]
fn suspend_plan_splits_workers() {
    let mut other_wf = make_worker("m-4", WorkerRole::Member, WorkerStatus::Booting);
    other_wf.workflow_id = "wf-2".to_string();
    let workers = vec![
        make_worker("sup-1", WorkerRole::Approver, WorkerStatus::Idle),
        make_worker("m-1", WorkerRole::Member, WorkerStatus::Idle),
        make_worker("m-2", WorkerRole::Member, WorkerStatus::Working),
        make_worker("m-3", WorkerRole::Member, WorkerStatus::Crashed),
        other_wf,
    ];
    let plan = plan_suspend(&workers).unwrap();
    assert_eq!(plan.workflow_ids, vec!["wf-test".to_string(), "wf-2".to_string()]);
    let immediate: Vec<&str> = plan.immediate.iter().map(|w| w.id.as_str()).collect();
    assert_eq!(immediate, vec!["m-1", "m-4"]);
    assert_eq!(plan.immediate[0].container_id, "container-m-1");
    assert_eq!(plan.pending, vec!["m-2".to_string()]);
    let sups: Vec<&str> = plan.supervisors.iter().map(|w| w.id.as_str()).collect();
    assert_eq!(sups, vec!["sup-1"]);
}

#[test]
fn nothing_to_suspend_gives_no_plan() {
    let workers = vec![
        make_worker("m-1", WorkerRole::Member, WorkerStatus::Suspended),
        make_worker("m-2", WorkerRole::Member, WorkerStatus::Crashed),
    ];
    assert!(plan_suspend(&workers).is_none());
    assert!(plan_suspend(&vec![]).is_none());
}

#[test]
fn suspend_waits_for_busy_members() {
    assert_eq!(pending_outcome(Some(WorkerStatus::Idle)), PendingOutcome::Suspend);
    assert_eq!(pending_outcome(Some(WorkerStatus::Crashed)), PendingOutcome::MarkSuspended);
    assert_eq!(pending_outcome(Some(WorkerStatus::Working)), PendingOutcome::Wait);
    assert_eq!(pending_outcome(Some(WorkerStatus::WaitingPermission)), PendingOutcome::Wait);
    assert_eq!(pending_outcome(None), PendingOutcome::Drop);
    assert!(suspend_keeps_waiting(1, 0));
    assert!(!suspend_keeps_waiting(0, 0));
}

#[test]
fn shutdown_terminates_running_workflows_only() {
    assert!(terminated_on_shutdown(WorkflowStatus::Active));
    assert!(terminated_on_shutdown(WorkflowStatus::Suspending));
    assert!(!terminated_on_shutdown(WorkflowStatus::Suspended));
    assert!(!terminated_on_shutdown(WorkflowStatus::Completed));
}

#[test]
fn orphan_containers_are_those_no_worker_knows() {
    let managed = vec!["abc123".to_string(), "def456".to_string(), "0a0a0a".to_string()];
    let known = vec!["abc123ffffffff".to_string(), "0a0a0a11".to_string()];
    assert_eq!(orphan_containers(&managed, &known), vec!["def456".to_string()]);
    assert!(orphan_containers(&vec![], &known).is_empty());
    assert_eq!(orphan_containers(&managed, &vec![]).len(), 3);
    // A listed id that extends a recorded one is known too.
    assert!(orphan_containers(&vec!["abcdef".to_string()], &vec!["abc".to_string()]).is_empty());
}

#[test]
fn ready_pane_shows_the_prompt() {
    assert!(pane_shows_prompt("Welcome\n❯ "));
    assert!(!pane_shows_prompt("$ "));
}

#[test]
fn recovery_detects_idle_worker_with_in_progress_job() {
    let workers = vec![make_worker("m-1", WorkerRole::Member, WorkerStatus::Idle)];
    let mut job = make_job("C-1");
    job.assignee_id = Some("m-1".to_string());
    job.status = JobStatus::Craft(CraftStatus::InProgress);
    let lookups = vec![lookup(&job, &workers)];
    assert_eq!(job_worker_inconsistencies(&vec![job], &lookups), vec![(0, Inconsistency::IdleAssignee)]);
}

#[test]
fn recovery_detects_job_assigned_to_missing_worker() {
    let workers = vec![make_worker("m-2", WorkerRole::Member, WorkerStatus::Working)];
    let mut job = make_job("C-1");
    job.assignee_id = Some("m-1".to_string());
    job.status = JobStatus::Craft(CraftStatus::InProgress);
    let lookups = vec![lookup(&job, &workers)];
    assert_eq!(job_worker_inconsistencies(&vec![job], &lookups), vec![(0, Inconsistency::MissingAssignee)]);
}

#[test]
fn recovery_ignores_done_jobs() {
    let workers = vec![make_worker("m-1", WorkerRole::Member, WorkerStatus::Idle)];
    let mut job = make_job("C-1");
    job.assignee_id = Some("m-1".to_string());
    job.status = JobStatus::Craft(CraftStatus::Done);
    let lookups = vec![lookup(&job, &workers)];
    assert!(job_worker_inconsistencies(&vec![job], &lookups).is_empty());
}

#[test]
fn recover_from_crash_recovery_skipped_when_no_workers() {
    assert!(job_worker_inconsistencies(&vec![], &vec![]).is_empty());
    assert!(plan_suspend(&vec![]).is_none());
    assert!(orphan_containers(&vec![], &vec![]).is_empty());
}
