use palette_orchestrator::actions::{EffectResult, PendingActions, PendingDelivery};
use palette_orchestrator::testing::{MockGitHubReview, MockTerminalSession};

#[test]
fn mock_terminal_shows_what_was_set() {
    let mut t = MockTerminalSession::new();
    assert_eq!(t.capture_pane("pane-m-1"), "");
    t.set_pane_content("pane-m-1", "first");
    t.set_pane_content("pane-m-2", "other");
    t.set_pane_content("pane-m-1", "second");
    assert_eq!(t.capture_pane("pane-m-1"), "second");
    assert_eq!(t.capture_pane("pane-m-2"), "other");
    t.send_keys("pane-m-1", "hello");
    assert_eq!(t.sent_keys, vec![("pane-m-1".to_string(), "hello".to_string())]);
}

#[test]
fn mock_github_reports_fixed_refs() {
    let gh = MockGitHubReview;
    let refs = gh.get_pr_base("x7c1", "demo", 1).unwrap();
    assert_eq!(refs.base_ref, "main");
    assert_eq!(refs.base_sha, "0000000000000000000000000000000000000000");
    assert_eq!(refs.head_ref, "feature");
    assert_eq!(refs.head_sha, "1111111111111111111111111111111111111111");
    assert!(gh.get_diff_files("x7c1", "demo", 1).unwrap().is_empty());
    assert!(gh.post_review("x7c1", "demo", 1, "body", &vec![]).is_ok());
}

#[test]
fn pending_actions_merge_in_order() {
    let mut a = PendingActions::new();
    a.deliver_to.push("m-1".to_string());
    let mut b = PendingActions::new();
    b.deliver_to.push("m-2".to_string());
    b.watch_only.push("sup-1".to_string());
    let m = a.merge(b);
    assert_eq!(m.deliver_to, vec!["m-1".to_string(), "m-2".to_string()]);
    assert_eq!(m.watch_only, vec!["sup-1".to_string()]);
    let empty = PendingActions::new().merge(PendingActions::new());
    assert!(empty.deliver_to.is_empty() && empty.watch_only.is_empty());
}

#[test]
fn effect_results_merge_in_order() {
    let mut a = EffectResult::new();
    a.deliveries.push(PendingDelivery { target_id: "m-1".to_string(), terminal_target: "pane-m-1".to_string() });
    let mut b = EffectResult::new();
    b.spawned_supervisors.push("sup-2".to_string());
    let m = a.merge(b);
    assert_eq!(m.deliveries.len(), 1);
    assert_eq!(m.deliveries[0].target_id, "m-1");
    assert_eq!(m.spawned_supervisors, vec!["sup-2".to_string()]);
}
