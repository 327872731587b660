use palette_orchestrator::domain::{WorkerRole, WorkerState, WorkerStatus, WorkflowStatus};
use palette_orchestrator::lifecycle::{plan_suspend, SuspendPlan};
use palette_orchestrator::suspend::{
    initial_suspend_phase, suspend_step, SuspendAction, SuspendPhase, SuspendTarget,
};

fn worker(id: &str, role: WorkerRole, status: WorkerStatus) -> WorkerState {
    WorkerState {
        id: id.to_string(),
        workflow_id: "wf".to_string(),
        role,
        supervisor_id: Some("sup-1".to_string()),
        container_id: format!("container-{id}"),
        terminal_target: format!("pane-{id}"),
        status,
        session_id: None,
        task_id: format!("wf:{id}"),
    }
}

fn plan() -> SuspendPlan {
    plan_suspend(&vec![
        worker("sup-1", WorkerRole::Approver, WorkerStatus::Idle),
        worker("m-1", WorkerRole::Member, WorkerStatus::Idle),
        worker("m-2", WorkerRole::Member, WorkerStatus::Working),
        worker("m-3", WorkerRole::Member, WorkerStatus::WaitingPermission),
    ])
    .unwrap()
}

/// Run the suspend with `statuses` for the busy members at every step,
/// the clock reading `elapsed` ms, and return the non-trivial actions.
fn run(plan: &SuspendPlan, statuses: impl Fn(usize) -> Vec<Option<WorkerStatus>>, elapsed: u64) -> Vec<SuspendAction> {
    let mut phase: SuspendPhase = initial_suspend_phase();
    let mut out = Vec::new();
    for step in 0..200 {
        let (next, action) = suspend_step(plan, &phase, &statuses(step), elapsed);
        phase = next;
        match action {
            SuspendAction::Continue | SuspendAction::StartClock | SuspendAction::Sleep { .. } => {}
            SuspendAction::Finished => return out,
            other => out.push(other),
        }
    }
    panic!("suspend did not finish")
}

#[test]
fn suspend_runs_in_order_when_members_finish() {
    let p = plan();
    assert_eq!(p.pending, vec!["m-2".to_string(), "m-3".to_string()]);
    // m-2 finishes (Idle), m-3 crashed.
    let actions = run(&p, |_| vec![Some(WorkerStatus::Idle), Some(WorkerStatus::Crashed)], 0);
    assert_eq!(
        actions,
        vec![
            SuspendAction::SetWorkflowStatus { workflow: 0, status: WorkflowStatus::Suspending },
            SuspendAction::Stop(SuspendTarget::Idle(0)),
            SuspendAction::Stop(SuspendTarget::Busy(0)),
            SuspendAction::MarkSuspended { member: 1 },
            SuspendAction::Stop(SuspendTarget::Supervisor(0)),
            SuspendAction::SetWorkflowStatus { workflow: 0, status: WorkflowStatus::Suspended },
        ]
    );
}

#[test]
fn busy_members_are_force_stopped_after_timeout() {
    let p = plan();
    let actions = run(&p, |_| vec![Some(WorkerStatus::Working), None], 300_000);
    assert_eq!(
        actions,
        vec![
            SuspendAction::SetWorkflowStatus { workflow: 0, status: WorkflowStatus::Suspending },
            SuspendAction::Stop(SuspendTarget::Idle(0)),
            SuspendAction::Stop(SuspendTarget::Busy(0)),
            SuspendAction::Stop(SuspendTarget::Supervisor(0)),
            SuspendAction::SetWorkflowStatus { workflow: 0, status: WorkflowStatus::Suspended },
        ]
    );
}

#[test]
fn busy_member_is_waited_for_until_idle() {
    let p = plan();
    let mut phase = initial_suspend_phase();
    let mut sleeps = 0;
    let mut actions = Vec::new();
    for step in 0..200usize {
        // m-2 works for the first 20 steps; m-3 is gone.
        let s = if step < 20 { Some(WorkerStatus::Working) } else { Some(WorkerStatus::Idle) };
        let (next, action) = suspend_step(&p, &phase, &vec![s, None], 1_000);
        phase = next;
        match action {
            SuspendAction::Sleep { ms } => {
                assert_eq!(ms, 3000);
                sleeps += 1;
            }
            SuspendAction::Finished => break,
            SuspendAction::Continue | SuspendAction::StartClock => {}
            other => actions.push(other),
        }
    }
    assert!(sleeps > 1);
    assert_eq!(actions[2], SuspendAction::Stop(SuspendTarget::Busy(0)));
    assert_eq!(actions.len(), 5);
}
