use palette_orchestrator::domain::{WorkerRole, WorkerState, WorkerStatus};
use palette_orchestrator::monitor::{
    hash_string, idle_groups_with_pending, is_liveness_poll, poll_interval_ms, worker_check,
    worker_limit_deadlock, xorshift64_next, CrashPlan, MonitorState, PaneAlert, PaneSnapshot,
    RecoveryCommand, WorkerCheck, WorkerOutcome, REALERT_INTERVAL_MS, STALL_TIMEOUT_MS,
};

fn make_worker(id: &str, role: WorkerRole, status: WorkerStatus) -> WorkerState {
    WorkerState {
        id: id.to_string(),
        workflow_id: "wf-test".to_string(),
        role,
        supervisor_id: Some("sup-1".to_string()),
        container_id: format!("container-{id}"),
        terminal_target: format!("pane-{id}"),
        status,
        session_id: None,
        task_id: format!("wf-test:{id}"),
    }
}

const AUTH_PANE: &str = r#"{"type":"error","error":{"type":"authentication_error","message":"Invalid authentication credentials"}}"#;

#[test]
fn worker_monitor_hash_detects_change() {
    let h1 = hash_string("hello world");
    let h2 = hash_string("hello world");
    let h3 = hash_string("hello world!");
    assert_eq!(h1, h2);
    assert_ne!(h1, h3);
}

#[test]
fn stall_timeout_not_reached() {
    let now: u64 = 1_000_000;
    let snapshot = PaneSnapshot {
        hash: 42,
        last_changed: now,
        stall_alerted_at: None,
        auth_error_alerted_at: None,
    };
    // Just created — not stalled
    assert!(now - snapshot.last_changed < STALL_TIMEOUT_MS);
}

#[test]
fn all_inactive_detection() {
    // Members in Idle, Crashed or WaitingPermission count as inactive.
    for status in [WorkerStatus::Idle, WorkerStatus::Crashed, WorkerStatus::WaitingPermission] {
        let groups = idle_groups_with_pending(&vec![make_worker("m-1", WorkerRole::Member, status)], &vec![true]);
        assert_eq!(groups.len(), 1);
        assert_eq!(groups[0].supervisor_id, "sup-1");
        assert_eq!(groups[0].member_count, 1);
    }
    // Working and Booting do not.
    for status in [WorkerStatus::Working, WorkerStatus::Booting] {
        let groups = idle_groups_with_pending(&vec![make_worker("m-1", WorkerRole::Member, status)], &vec![true]);
        assert!(groups.is_empty());
    }
}

#[test]
fn stall_not_detected_when_pane_changes() {
    let mut state = MonitorState::new();
    let alert = state.observe_pane("m-1", WorkerStatus::Working, "output line 1", 1_000);
    assert_eq!(alert, PaneAlert::Quiet);
    let snap = state.snapshot("m-1").unwrap();
    assert!(snap.stall_alerted_at.is_none());
    let alert = state.observe_pane("m-1", WorkerStatus::Working, "output line 2", 1_000 + STALL_TIMEOUT_MS + 5);
    assert_eq!(alert, PaneAlert::Quiet);
    assert_eq!(state.snapshot("m-1").unwrap().last_changed, 1_000 + STALL_TIMEOUT_MS + 5);
}

#[test]
fn stall_detected_when_pane_unchanged_past_timeout() {
    let mut state = MonitorState::new();
    state.observe_pane("m-1", WorkerStatus::Working, "stuck output", 0);
    let later = STALL_TIMEOUT_MS + 1_000;
    let alert = state.observe_pane("m-1", WorkerStatus::Working, "stuck output", later);
    assert_eq!(alert, PaneAlert::Stall { stalled_ms: later });
    assert_eq!(state.snapshot("m-1").unwrap().stall_alerted_at, Some(later));
}

#[test]
fn stall_realert_after_interval() {
    let mut state = MonitorState::new();
    state.observe_pane("m-1", WorkerStatus::Working, "stuck output", 0);
    let t1 = REALERT_INTERVAL_MS + STALL_TIMEOUT_MS;
    assert!(matches!(
        state.observe_pane("m-1", WorkerStatus::Working, "stuck output", t1),
        PaneAlert::Stall { .. }
    ));
    let first_alert = state.snapshot("m-1").unwrap().stall_alerted_at.unwrap();

    // Immediately check again — should NOT re-alert (interval not elapsed)
    assert_eq!(state.observe_pane("m-1", WorkerStatus::Working, "stuck output", t1 + 10), PaneAlert::Quiet);
    let same_alert = state.snapshot("m-1").unwrap().stall_alerted_at.unwrap();
    assert_eq!(first_alert, same_alert, "should not re-alert before interval elapses");

    let t2 = t1 + REALERT_INTERVAL_MS;
    assert!(matches!(
        state.observe_pane("m-1", WorkerStatus::Working, "stuck output", t2),
        PaneAlert::Stall { .. }
    ));
    let second_alert = state.snapshot("m-1").unwrap().stall_alerted_at.unwrap();
    assert_ne!(first_alert, second_alert, "should re-alert after interval elapses");
}

#[test]
fn stall_realert_resets_on_pane_change() {
    let mut state = MonitorState::new();
    state.observe_pane("m-1", WorkerStatus::Working, "stuck output", 0);
    state.observe_pane("m-1", WorkerStatus::Working, "stuck output", STALL_TIMEOUT_MS + 1_000);
    assert!(state.snapshot("m-1").unwrap().stall_alerted_at.is_some());

    // Simulate a pane content change by altering the snapshot hash.
    let mut snap = state.snapshot("m-1").unwrap();
    snap.hash = snap.hash.wrapping_add(1);
    state.set_snapshot("m-1", snap);
    state.observe_pane("m-1", WorkerStatus::Working, "stuck output", STALL_TIMEOUT_MS + 2_000);
    assert!(
        state.snapshot("m-1").unwrap().stall_alerted_at.is_none(),
        "alert should reset when pane content changes"
    );
}

#[test]
fn stall_only_checked_for_working_status() {
    let mut state = MonitorState::new();
    let alert = state.observe_pane("m-1", WorkerStatus::Idle, "anything", 0);
    assert_eq!(alert, PaneAlert::Quiet);
    // No snapshot created for idle worker
    assert!(state.snapshot("m-1").is_none());
}

#[test]
fn auth_error_detected_from_pane_content() {
    let mut state = MonitorState::new();
    assert_eq!(state.observe_pane("m-1", WorkerStatus::Working, AUTH_PANE, 0), PaneAlert::AuthError);
    let alert = state.observe_pane("m-1", WorkerStatus::Working, AUTH_PANE, STALL_TIMEOUT_MS * 3);
    assert_eq!(alert, PaneAlert::Quiet);
    let snapshot = state.snapshot("m-1").unwrap();
    assert!(snapshot.auth_error_alerted_at.is_some(), "auth error should be detected");
    assert!(
        snapshot.stall_alerted_at.is_none(),
        "stall alert should not fire when auth error is detected"
    );
}

#[test]
fn auth_error_resets_on_pane_change() {
    let mut state = MonitorState::new();
    state.observe_pane("m-1", WorkerStatus::Working, AUTH_PANE, 0);
    state.observe_pane("m-1", WorkerStatus::Working, AUTH_PANE, 10);
    assert!(state.snapshot("m-1").unwrap().auth_error_alerted_at.is_some());

    let mut snap = state.snapshot("m-1").unwrap();
    snap.hash = snap.hash.wrapping_add(1);
    state.set_snapshot("m-1", snap);
    state.observe_pane("m-1", WorkerStatus::Working, AUTH_PANE, 20);
    assert!(
        state.snapshot("m-1").unwrap().auth_error_alerted_at.is_none(),
        "auth error alert should reset when pane content changes"
    );
}

#[test]
fn crash_detected_updates_status_and_starts_recovery() {
    let worker = make_worker("m-1", WorkerRole::Member, WorkerStatus::Working);
    assert_eq!(worker_check(worker.status, false, true, false), WorkerCheck::Crash);
    let mut state = MonitorState::new();
    match state.record_crash(&worker) {
        CrashPlan::Recover { attempt, command, alert } => {
            assert_eq!(attempt, 1);
            assert!(matches!(command, RecoveryCommand::FreshStart { ref prompt_file } if prompt_file == "/home/agent/prompt.md"));
            let alert = alert.unwrap();
            assert_eq!(alert.supervisor_id, "sup-1");
            assert_eq!(alert.message, "[alert] member=m-1 type=crash_recovery attempt=1");
        }
        other => panic!("expected recovery, got {other:?}"),
    }
    assert_eq!(state.retries("m-1"), 1);
}

#[test]
fn crash_recovery_retries_exhausted_escalates() {
    let worker = make_worker("m-1", WorkerRole::Member, WorkerStatus::Working);
    let mut state = MonitorState::new();
    let mut last = None;
    for _ in 0..4 {
        last = Some(state.record_crash(&worker));
    }
    assert_eq!(state.retries("m-1"), 4);
    match last.unwrap() {
        CrashPlan::Escalate { alert } => {
            let alert = alert.expect("escalation message should be enqueued to supervisor");
            assert_eq!(alert.supervisor_id, "sup-1");
            assert_eq!(alert.message, "[alert] member=m-1 type=crash_unrecoverable retries_exhausted=true");
        }
        other => panic!("expected escalation, got {other:?}"),
    }
}

#[test]
fn crash_with_session_resumes_it() {
    let mut worker = make_worker("m-1", WorkerRole::Member, WorkerStatus::Working);
    worker.session_id = Some("sess-9".to_string());
    let mut state = MonitorState::new();
    match state.record_crash(&worker) {
        CrashPlan::Recover { command: RecoveryCommand::Resume { session_id }, .. } => assert_eq!(session_id, "sess-9"),
        other => panic!("expected resume, got {other:?}"),
    }
}

#[test]
fn supervisor_crash_alerts_nobody() {
    let worker = make_worker("approver-1", WorkerRole::Approver, WorkerStatus::Working);
    let mut state = MonitorState::new();
    match state.record_crash(&worker) {
        CrashPlan::Recover { alert, .. } => assert!(alert.is_none()),
        other => panic!("expected recovery, got {other:?}"),
    }
}

#[test]
fn all_idle_detected_when_pending_messages_exist() {
    let member = make_worker("m-1", WorkerRole::Member, WorkerStatus::Idle);
    let groups = idle_groups_with_pending(&vec![member], &vec![true]);
    assert_eq!(groups.len(), 1);
    assert_eq!(groups[0].supervisor_id, "sup-1");
}

#[test]
fn all_idle_not_triggered_when_member_is_working() {
    let idle = make_worker("m-1", WorkerRole::Member, WorkerStatus::Idle);
    let working = make_worker("m-2", WorkerRole::Member, WorkerStatus::Working);
    let groups = idle_groups_with_pending(&vec![idle, working], &vec![true, false]);
    assert!(groups.is_empty());
}

#[test]
fn deadlock_detected_when_all_slots_full_and_jobs_waiting() {
    let workers = vec![
        make_worker("approver-1", WorkerRole::Approver, WorkerStatus::Idle),
        make_worker("approver-2", WorkerRole::Approver, WorkerStatus::Idle),
        make_worker("m-1", WorkerRole::Member, WorkerStatus::Idle),
    ];
    assert!(worker_limit_deadlock(3, 3, 1, &workers));
}

#[test]
fn deadlock_not_triggered_when_worker_is_making_progress() {
    let workers = vec![
        make_worker("approver-1", WorkerRole::Approver, WorkerStatus::Idle),
        make_worker("approver-2", WorkerRole::Approver, WorkerStatus::Idle),
        make_worker("m-1", WorkerRole::Member, WorkerStatus::Working),
    ];
    assert!(!worker_limit_deadlock(3, 3, 1, &workers));
}

#[test]
fn deadlock_not_triggered_when_slots_available() {
    let workers = vec![
        make_worker("approver-1", WorkerRole::Approver, WorkerStatus::Idle),
        make_worker("m-1", WorkerRole::Member, WorkerStatus::Idle),
    ];
    assert!(!worker_limit_deadlock(2, 3, 1, &workers));
}

#[test]
fn booting_crashed_and_suspended_workers_skipped_in_liveness_check() {
    for status in [WorkerStatus::Booting, WorkerStatus::Crashed, WorkerStatus::Suspended] {
        assert_eq!(worker_check(status, false, true, false), WorkerCheck::Skip);
    }
    assert_eq!(worker_check(WorkerStatus::Idle, true, true, false), WorkerCheck::Skip);
    assert_eq!(worker_check(WorkerStatus::Idle, false, false, false), WorkerCheck::CheckPane);
}

#[test]
fn liveness_every_third_poll_and_jittered_interval() {
    assert!(is_liveness_poll(0));
    assert!(!is_liveness_poll(1));
    assert!(is_liveness_poll(3));
    assert_eq!(poll_interval_ms(0), 2500);
    assert_eq!(poll_interval_ms(1234), 2500 + 234);
    assert_eq!(xorshift64_next(1), 1082269761);
}

#[test]
fn retain_workers_forgets_removed_ones() {
    let mut state = MonitorState::new();
    state.observe_pane("m-1", WorkerStatus::Working, "a", 0);
    state.observe_pane("m-2", WorkerStatus::Working, "b", 0);
    state.set_retries("m-2", 2);
    state.retain_workers(&vec!["m-1".to_string()]);
    assert!(state.snapshot("m-1").is_some());
    assert!(state.snapshot("m-2").is_none());
    assert_eq!(state.retries("m-2"), 0);
}

#[test]
fn auth_error_realerts_after_interval() {
    let mut state = MonitorState::new();
    assert_eq!(state.observe_pane("m-1", WorkerStatus::Working, AUTH_PANE, 5), PaneAlert::AuthError);
    assert_eq!(
        state.observe_pane("m-1", WorkerStatus::Working, AUTH_PANE, 5 + REALERT_INTERVAL_MS - 1),
        PaneAlert::Quiet
    );
    assert_eq!(
        state.observe_pane("m-1", WorkerStatus::Working, AUTH_PANE, 5 + REALERT_INTERVAL_MS),
        PaneAlert::AuthError
    );
}

#[test]
fn monitor_pass_checks_each_worker() {
    let mut state = MonitorState::new();
    state.observe_pane("m-9", WorkerStatus::Working, "old", 0);
    state.set_retries("m-9", 2);
    let workers = vec![
        make_worker("m-1", WorkerRole::Member, WorkerStatus::Working),
        make_worker("m-2", WorkerRole::Member, WorkerStatus::Idle),
        make_worker("m-3", WorkerRole::Member, WorkerStatus::Booting),
        make_worker("m-4", WorkerRole::Member, WorkerStatus::Working),
        make_worker("m-5", WorkerRole::Member, WorkerStatus::Idle),
    ];
    let out = state.monitor_pass(
        &workers,
        &vec![false; 5],
        true,
        &vec![true, false, false, true, false],
        &vec![false, true, false, false, false],
        &vec![Some(AUTH_PANE.to_string()), None, None, None, None],
        100,
    );
    assert!(matches!(out[0], WorkerOutcome::Pane(PaneAlert::AuthError)));
    assert!(matches!(out[1], WorkerOutcome::Crashed(CrashPlan::Recover { attempt: 1, .. })));
    assert!(matches!(out[2], WorkerOutcome::Skipped));
    assert!(matches!(out[3], WorkerOutcome::PaneUnavailable));
    assert!(matches!(out[4], WorkerOutcome::CrashNotRecorded));
    assert_eq!(state.retries("m-2"), 1);
    assert_eq!(state.retries("m-5"), 0);
    assert!(state.snapshot("m-1").unwrap().auth_error_alerted_at.is_some());
    assert!(state.snapshot("m-9").is_none());
    assert_eq!(state.retries("m-9"), 0);
}
