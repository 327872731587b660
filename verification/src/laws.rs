//! Properties of the orchestrator logic: how pane observations follow one
//! another, how crash counts grow, how a suspend splits the workers and
//! leaves none of them running, what a pull request review keeps, what an
//! accepted perspective configuration holds, what a keyed memory gives
//! back, and what the single decisions (readiness polls, worker checks,
//! deliveries, task activation and completion, review submissions) answer.
use vstd::prelude::*;
use vstd::string::*;
use crate::domain::{
    JobStatus, JobType, ReviewStatus, Task, TaskStatus, WorkerRole, WorkerState, WorkerStatus, WorkflowStatus,
};
use crate::suspend::{
    action_stage, can_touch, initial_phase_view, lemma_suspend_step, phase_rank, phase_wf, sizes_fit, suspend_step_of,
    touched, PhaseView, PlanSizes, SuspendAction, SuspendTarget,
};
use crate::lifecycle::{
    immediate_members, pending_members, pending_outcome_of, readiness_action_of, suspendable, suspendable_supervisors,
    suspendable_workers, delivery_action_of, DeliveryAction, PendingOutcome, ReadinessAction,
};
use crate::review_cycle::{submission_step_of, SubmissionStep};
use crate::task_rules::{completes, composite_activation_of, is_child, leaf_plan_path, CompositeActivation};
use crate::tasks::{lemma_task_pos, task_of};
use crate::monitor::{
    check_for, WorkerCheck, elapsed, pane_step, retries_of, PaneAlert, PaneSnapshot, CRASH_RETRY_LIMIT, REALERT_INTERVAL_MS, STALL_TIMEOUT_MS,
};
use crate::review::{Verdict, folded_comment, folded_comments, inline_comments, review_body, IntegratedReview, IntegratedReviewComment};
use crate::path::{path_is_within, path_join, path_strip_prefix};
use crate::plan_location::{container_plan_path_of, PlanLocation, WORKSPACE_MOUNT};
use crate::perspectives::{
    dir_phase, dir_probe_views, distinct, duplicate_name_errors, entry_phase, entry_view, first_named, lemma_first_named,
    path_phase, path_probe_views, path_step, probed_path, PathView, PerspectiveView, PerspectivesConfig, ResolvedPaths,
};
use crate::text::{assoc, assoc_set, first_index_of, seq_starts_with};

verus! {

// ---------------------------------------------------------------------------
// Worker monitor: pane observations
// ---------------------------------------------------------------------------

/// A pane whose content changed since the last snapshot reports nothing and
/// starts a fresh snapshot: the stall clock restarts and both alerts are
/// cleared.
pub proof fn law_pane_change_resets(prev: PaneSnapshot, hash: u64, auth_error: bool, now: u64)
    requires
        prev.hash != hash,
    ensures
        pane_step(Some(prev), hash, auth_error, now) == (
            PaneSnapshot { hash, last_changed: now, stall_alerted_at: None, auth_error_alerted_at: None },
            PaneAlert::Quiet,
        ),
{
}

/// No stall is reported for a pane that changed less than
/// [`STALL_TIMEOUT_MS`] ago, nor for a pane seen for the first time.
pub proof fn law_no_stall_before_timeout(prev: Option<PaneSnapshot>, hash: u64, auth_error: bool, now: u64)
    requires
        match prev {
            Some(s) => elapsed(now, s.last_changed) < STALL_TIMEOUT_MS,
            None => true,
        },
    ensures
        !(pane_step(prev, hash, auth_error, now).1 is Stall),
{
}

/// A pane that shows an authentication error is never reported as stalled.
pub proof fn law_auth_error_is_not_a_stall(prev: Option<PaneSnapshot>, hash: u64, now: u64)
    ensures
        !(pane_step(prev, hash, true, now).1 is Stall),
{
}

/// A pane unchanged for at least [`STALL_TIMEOUT_MS`], with no
/// authentication error and no stall reported yet, is reported as stalled
/// for as long as it has not changed.
pub proof fn law_stall_detected(prev: PaneSnapshot, now: u64)
    requires
        elapsed(now, prev.last_changed) >= STALL_TIMEOUT_MS,
        prev.stall_alerted_at is None,
    ensures
        pane_step(Some(prev), prev.hash, false, now).1 == (PaneAlert::Stall {
            stalled_ms: elapsed(now, prev.last_changed),
        }),
{
}

/// After a stall was reported at `t1`, the same unchanged pane is not
/// reported again before [`REALERT_INTERVAL_MS`] has passed, and is reported
/// again once it has.
pub proof fn law_stall_realert_interval(prev: PaneSnapshot, t1: u64, t2: u64)
    requires
        pane_step(Some(prev), prev.hash, false, t1).1 is Stall,
        t1 <= t2,
    ensures
        t2 - t1 < REALERT_INTERVAL_MS ==> pane_step(Some(pane_step(Some(prev), prev.hash, false, t1).0), prev.hash, false, t2).1
            == PaneAlert::Quiet,
        t2 - t1 >= REALERT_INTERVAL_MS ==> pane_step(Some(pane_step(Some(prev), prev.hash, false, t1).0), prev.hash, false, t2).1 is Stall,
{
}

/// After an authentication error was reported at `t1`, the same unchanged
/// pane is not reported again before [`REALERT_INTERVAL_MS`] has passed, and
/// is reported again once it has.
pub proof fn law_auth_realert_interval(prev: PaneSnapshot, t1: u64, t2: u64)
    requires
        pane_step(Some(prev), prev.hash, true, t1).1 is AuthError,
        t1 <= t2,
    ensures
        t2 - t1 < REALERT_INTERVAL_MS ==> pane_step(Some(pane_step(Some(prev), prev.hash, true, t1).0), prev.hash, true, t2).1
            == PaneAlert::Quiet,
        t2 - t1 >= REALERT_INTERVAL_MS ==> pane_step(Some(pane_step(Some(prev), prev.hash, true, t1).0), prev.hash, true, t2).1
            == PaneAlert::AuthError,
{
}

// ---------------------------------------------------------------------------
// Worker monitor: crash counts
// ---------------------------------------------------------------------------

/// How `record_crash` changes the crash counts (its `ensures`): the
/// worker's count grows by one, every other key keeps its value.
pub open spec fn crash_recorded(before: Seq<(Seq<char>, u32)>, after: Seq<(Seq<char>, u32)>, id: Seq<char>) -> bool {
    &&& retries_of(before, id) < u32::MAX
    &&& forall|k: Seq<char>| #[trigger] assoc(after, k) == assoc_set(before, id, (retries_of(before, id) + 1) as u32, k)
}

/// Starting from no recorded crash of worker `id`, after `n` crashes of it
/// (with any crashes of other workers in between) its count is `n`; so its
/// `n`-th crash is recovered exactly when `n` is at most
/// [`CRASH_RETRY_LIMIT`] and escalated after that.
pub proof fn law_crash_count_grows_by_one(states: Seq<Seq<(Seq<char>, u32)>>, crashed: Seq<Seq<char>>, id: Seq<char>)
    requires
        states.len() == crashed.len() + 1,
        retries_of(states[0], id) == 0,
        forall|i: int| 0 <= i < crashed.len() ==> crash_recorded(#[trigger] states[i], states[i + 1], crashed[i]),
    ensures
        retries_of(states.last(), id) == crashed.filter(|c: Seq<char>| c == id).len(),
    decreases crashed.len(),
{
    reveal(Seq::filter);
    if crashed.len() > 0 {
        let n = crashed.len() - 1;
        let s2 = states.drop_last();
        let c2 = crashed.drop_last();
        assert forall|i: int| 0 <= i < c2.len() implies crash_recorded(#[trigger] s2[i], s2[i + 1], c2[i]) by {
            assert(crash_recorded(states[i], states[i + 1], crashed[i]));
        }
        law_crash_count_grows_by_one(s2, c2, id);
        assert(crash_recorded(states[n], states[n + 1], crashed[n]));
        assert(assoc(states[n + 1], id) == assoc_set(
            states[n],
            crashed[n],
            (retries_of(states[n], crashed[n]) + 1) as u32,
            id,
        ));
        assert(s2.last() == states[n]);
        assert(states.last() == states[n + 1]);
        assert(crashed.drop_last() == c2);
    }
}

/// A crash is recovered exactly while the worker's count, this crash
/// included, stays within [`CRASH_RETRY_LIMIT`].
pub proof fn law_recovery_budget(before: Seq<(Seq<char>, u32)>, after: Seq<(Seq<char>, u32)>, id: Seq<char>)
    requires
        crash_recorded(before, after, id),
    ensures
        retries_of(after, id) == retries_of(before, id) + 1,
        (retries_of(after, id) <= CRASH_RETRY_LIMIT) <==> (retries_of(before, id) < CRASH_RETRY_LIMIT),
{
    assert(assoc(after, id) == assoc_set(before, id, (retries_of(before, id) + 1) as u32, id));
}

// ---------------------------------------------------------------------------
// Suspend
// ---------------------------------------------------------------------------

/// A suspend plan places every suspendable worker in exactly one of its
/// lists: members to stop at once, members to wait for, supervisors.
pub proof fn law_suspend_covers_each_worker_once(ws: Seq<WorkerState>)
    ensures
        immediate_members(ws).len() + pending_members(ws).len() + suspendable_supervisors(ws).len()
            == suspendable_workers(ws).len(),
    decreases ws.len(),
{
    reveal(Seq::filter);
    if ws.len() > 0 {
        law_suspend_covers_each_worker_once(ws.drop_last());
        assert(suspendable_workers(ws) == {
            let prev = suspendable_workers(ws.drop_last());
            if suspendable(ws.last().status) {
                prev.push(ws.last())
            } else {
                prev
            }
        });
    }
}

/// A run of suspend steps from the start: `phases[i + 1]` and `actions[i]`
/// are what a step from `phases[i]` gives, whatever the members' statuses
/// and the elapsed time at that step.
pub open spec fn suspend_run(
    sz: PlanSizes,
    phases: Seq<PhaseView>,
    actions: Seq<SuspendAction>,
    statuses: Seq<Seq<Option<WorkerStatus>>>,
    elapsed: Seq<u64>,
) -> bool {
    &&& phases.len() == actions.len() + 1
    &&& statuses.len() == actions.len()
    &&& elapsed.len() == actions.len()
    &&& phases[0] == initial_phase_view()
    &&& forall|i: int|
        0 <= i < actions.len() ==> (phases[i + 1], actions[i]) == #[trigger] suspend_step_of(
            sz,
            phases[i],
            statuses[i],
            elapsed[i],
        )
}

proof fn lemma_suspend_run(
    sz: PlanSizes,
    phases: Seq<PhaseView>,
    actions: Seq<SuspendAction>,
    statuses: Seq<Seq<Option<WorkerStatus>>>,
    elapsed: Seq<u64>,
    j: int,
)
    requires
        sizes_fit(sz),
        suspend_run(sz, phases, actions, statuses, elapsed),
        0 <= j < phases.len(),
    ensures
        phase_wf(sz, phases[j]),
        forall|i: int| 0 <= i <= j ==> phase_rank(#[trigger] phases[i]) <= phase_rank(phases[j]),
        forall|i: int, t: SuspendTarget| 0 <= i <= j && can_touch(sz, phases[j], t) ==> #[trigger] can_touch(sz, phases[i], t),
    decreases j,
{
    if j > 0 {
        lemma_suspend_run(sz, phases, actions, statuses, elapsed, j - 1);
        assert((phases[j], actions[j - 1]) == suspend_step_of(sz, phases[j - 1], statuses[j - 1], elapsed[j - 1]));
        lemma_suspend_step(sz, phases[j - 1], statuses[j - 1], elapsed[j - 1]);
    }
}

/// Over any run of a suspend, each worker of the plan is stopped or marked
/// Suspended at most once.
pub proof fn law_suspend_touches_each_worker_once(
    sz: PlanSizes,
    phases: Seq<PhaseView>,
    actions: Seq<SuspendAction>,
    statuses: Seq<Seq<Option<WorkerStatus>>>,
    elapsed: Seq<u64>,
    i: int,
    j: int,
)
    requires
        sizes_fit(sz),
        suspend_run(sz, phases, actions, statuses, elapsed),
        0 <= i < j < actions.len(),
        touched(actions[i]) is Some,
    ensures
        touched(actions[j]) != touched(actions[i]),
{
    lemma_suspend_run(sz, phases, actions, statuses, elapsed, j);
    assert((phases[i + 1], actions[i]) == suspend_step_of(sz, phases[i], statuses[i], elapsed[i]));
    assert((phases[j + 1], actions[j]) == suspend_step_of(sz, phases[j], statuses[j], elapsed[j]));
    lemma_suspend_run(sz, phases, actions, statuses, elapsed, i);
    lemma_suspend_step(sz, phases[i], statuses[i], elapsed[i]);
    lemma_suspend_step(sz, phases[j], statuses[j], elapsed[j]);
    let t = touched(actions[i]).unwrap();
    if touched(actions[j]) == Some(t) {
        assert(can_touch(sz, phases[j], t));
        assert(can_touch(sz, phases[i + 1], t));
    }
}

/// Over any run of a suspend, the actions keep their order: workflows are
/// marked Suspending before anything is stopped, idle and booting members
/// are stopped before busy members are handled, supervisors are stopped only
/// after every member, and workflows are marked Suspended last.
pub proof fn law_suspend_keeps_its_order(
    sz: PlanSizes,
    phases: Seq<PhaseView>,
    actions: Seq<SuspendAction>,
    statuses: Seq<Seq<Option<WorkerStatus>>>,
    elapsed: Seq<u64>,
    i: int,
    j: int,
)
    requires
        sizes_fit(sz),
        suspend_run(sz, phases, actions, statuses, elapsed),
        0 <= i < j < actions.len(),
        action_stage(actions[i]) is Some,
        action_stage(actions[j]) is Some,
    ensures
        action_stage(actions[i]).unwrap() <= action_stage(actions[j]).unwrap(),
{
    lemma_suspend_run(sz, phases, actions, statuses, elapsed, j);
    lemma_suspend_run(sz, phases, actions, statuses, elapsed, i);
    assert((phases[i + 1], actions[i]) == suspend_step_of(sz, phases[i], statuses[i], elapsed[i]));
    assert((phases[j + 1], actions[j]) == suspend_step_of(sz, phases[j], statuses[j], elapsed[j]));
    lemma_suspend_step(sz, phases[i], statuses[i], elapsed[i]);
    lemma_suspend_step(sz, phases[j], statuses[j], elapsed[j]);
    assert(phase_rank(phases[i]) <= phase_rank(phases[j]));
}

// ---------------------------------------------------------------------------
// Pull request reviews
// ---------------------------------------------------------------------------

/// Whether comment `c` is on a file of the diff.
pub open spec fn on_diff(c: IntegratedReviewComment, diff: Seq<Seq<char>>) -> bool {
    diff.contains(c.path@)
}

/// No comment of an integrated review is lost when it is posted: each one
/// becomes either an inline comment (on a file of the diff) or a part of
/// the body (otherwise).
pub proof fn law_every_comment_is_posted(cs: Seq<IntegratedReviewComment>, diff: Seq<Seq<char>>)
    ensures
        inline_comments(cs, diff).len() + cs.filter(|c: IntegratedReviewComment| !on_diff(c, diff)).len() == cs.len(),
    decreases cs.len(),
{
    reveal(Seq::filter);
    if cs.len() > 0 {
        law_every_comment_is_posted(cs.drop_last(), diff);
    }
}

/// The posted body is the integrated review's own body exactly when every
/// comment is on a file of the diff.
pub proof fn law_body_unchanged_iff_all_inline(review: IntegratedReview, diff: Seq<Seq<char>>)
    ensures
        (review_body(review, diff) == review.body@) <==> (forall|i: int|
            0 <= i < review.comments@.len() ==> on_diff(#[trigger] review.comments@[i], diff)),
{
    lemma_folded_empty(review.comments@, diff);
    let extra = folded_comments(review.comments@, diff);
    if extra.len() != 0 {
        let sep = "\n\n---\n\nComments on files outside this PR's diff:"@;
        assert((review.body@ + sep + extra).len() > review.body@.len());
    }
}

proof fn lemma_folded_empty(cs: Seq<IntegratedReviewComment>, diff: Seq<Seq<char>>)
    ensures
        (folded_comments(cs, diff).len() == 0) <==> (forall|i: int| 0 <= i < cs.len() ==> on_diff(#[trigger] cs[i], diff)),
    decreases cs.len(),
{
    if cs.len() > 0 {
        lemma_folded_empty(cs.drop_last(), diff);
        let c = cs.last();
        assert(folded_comment(c).len() > 0) by {
            reveal_strlit("\n\n**");
        }
        assert forall|i: int| 0 <= i < cs.len() - 1 implies cs.drop_last()[i] == cs[i] by {}
        if !on_diff(c, diff) {
            assert(!on_diff(cs[cs.len() - 1], diff));
        }
        if forall|i: int| 0 <= i < cs.drop_last().len() ==> on_diff(#[trigger] cs.drop_last()[i], diff) {
            if on_diff(c, diff) {
                assert forall|i: int| 0 <= i < cs.len() implies on_diff(#[trigger] cs[i], diff) by {
                    if i < cs.len() - 1 {
                        assert(on_diff(cs.drop_last()[i], diff));
                    }
                }
            }
        } else {
            let j = choose|j: int| 0 <= j < cs.drop_last().len() && !on_diff(#[trigger] cs.drop_last()[j], diff);
            assert(!on_diff(cs[j], diff));
        }
    }
}

// ---------------------------------------------------------------------------
// Perspective configuration
// ---------------------------------------------------------------------------

/// Each path entry of a perspective is either accepted or reported: the
/// accepted paths and the errors together number the entries.
pub proof fn law_each_entry_accepted_or_reported(
    pname: Seq<char>,
    dirs: Seq<(Seq<char>, Seq<char>)>,
    probe: Seq<(Seq<char>, Result<Seq<char>, Seq<char>>)>,
    entries: Seq<Seq<char>>,
)
    ensures
        path_phase(pname, dirs, probe, entries).paths.len() + path_phase(pname, dirs, probe, entries).errors.len()
            == entries.len(),
    decreases entries.len(),
{
    if entries.len() > 0 {
        law_each_entry_accepted_or_reported(pname, dirs, probe, entries.drop_last());
    }
}

/// Whether document path `p` names a configured base directory and
/// resolves to a path inside it.
pub open spec fn resolves_inside(
    dirs: Seq<(Seq<char>, Seq<char>)>,
    probe: Seq<(Seq<char>, Result<Seq<char>, Seq<char>>)>,
    p: PathView,
) -> bool {
    match assoc(dirs, p.dir_name) {
        Some(base) => match probed_path(probe, path_join(base, p.relative_path)) {
            Ok(c) => path_is_within(c, base),
            Err(_) => false,
        },
        None => false,
    }
}

proof fn lemma_path_phase_inside(
    pname: Seq<char>,
    dirs: Seq<(Seq<char>, Seq<char>)>,
    probe: Seq<(Seq<char>, Result<Seq<char>, Seq<char>>)>,
    entries: Seq<Seq<char>>,
)
    ensures
        forall|j: int|
            0 <= j < path_phase(pname, dirs, probe, entries).paths.len() ==> resolves_inside(
                dirs,
                probe,
                #[trigger] path_phase(pname, dirs, probe, entries).paths[j],
            ),
    decreases entries.len(),
{
    if entries.len() > 0 {
        lemma_path_phase_inside(pname, dirs, probe, entries.drop_last());
        let st = path_phase(pname, dirs, probe, entries.drop_last());
        let e = entries.last();
        let next = path_step(pname, dirs, probe, st, e);
        assert(next == path_phase(pname, dirs, probe, entries));
        assert forall|j: int| 0 <= j < next.paths.len() implies resolves_inside(dirs, probe, #[trigger] next.paths[j]) by {
            if j < st.paths.len() {
                assert(resolves_inside(dirs, probe, st.paths[j]));
                match first_index_of(e, ':') {
                    None => {},
                    Some(k) => {},
                }
            }
        }
    }
}

#[verifier::spinoff_prover]
proof fn lemma_entry_phase(
    dirs: Seq<(Seq<char>, Seq<char>)>,
    probe: Seq<(Seq<char>, Result<Seq<char>, Seq<char>>)>,
    entries: Seq<(Seq<char>, Seq<Seq<char>>)>,
)
    ensures
        forall|i: int, j: int|
            0 <= i < entry_phase(dirs, probe, entries).0.len() && 0 <= j < entry_phase(dirs, probe, entries).0[i].paths.len()
                ==> resolves_inside(dirs, probe, #[trigger] entry_phase(dirs, probe, entries).0[i].paths[j]),
        entry_phase(dirs, probe, entries).1.len() == 0 ==> {
            &&& entry_phase(dirs, probe, entries).0.len() == entries.len()
            &&& forall|i: int|
                0 <= i < entries.len() ==> #[trigger] entry_phase(dirs, probe, entries).0[i].name == entries[i].0
                    && entry_phase(dirs, probe, entries).0[i].paths.len() == entries[i].1.len() && entries[i].1.len() > 0
        },
    decreases entries.len(),
{
    if entries.len() > 0 {
        let prev_entries = entries.drop_last();
        lemma_entry_phase(dirs, probe, prev_entries);
        let prev = entry_phase(dirs, probe, prev_entries);
        let (name, paths) = entries.last();
        if paths.len() > 0 {
            let ph = path_phase(name, dirs, probe, paths);
            lemma_path_phase_inside(name, dirs, probe, paths);
            law_each_entry_accepted_or_reported(name, dirs, probe, paths);
            let cur = entry_phase(dirs, probe, entries);
            assert(cur.0 == prev.0.push(PerspectiveView { name, paths: ph.paths }));
            assert forall|i: int, j: int| 0 <= i < cur.0.len() && 0 <= j < cur.0[i].paths.len() implies resolves_inside(
                dirs,
                probe,
                #[trigger] cur.0[i].paths[j],
            ) by {
                if i < prev.0.len() {
                    assert(cur.0[i] == prev.0[i]);
                } else {
                    assert(cur.0[i].paths == ph.paths);
                }
            }
            if cur.1.len() == 0 {
                assert(cur.1 == prev.1 + ph.errors);
                assert(prev.1.len() == 0);
                assert forall|i: int| 0 <= i < entries.len() implies #[trigger] cur.0[i].name == entries[i].0
                    && cur.0[i].paths.len() == entries[i].1.len() && entries[i].1.len() > 0 by {
                    if i < prev_entries.len() {
                        assert(cur.0[i] == prev.0[i]);
                        assert(entries[i] == prev_entries[i]);
                    }
                }
            }
        } else {
            let cur = entry_phase(dirs, probe, entries);
            assert(cur.1.len() > 0);
            assert forall|i: int, j: int| 0 <= i < cur.0.len() && 0 <= j < cur.0[i].paths.len() implies resolves_inside(
                dirs,
                probe,
                #[trigger] cur.0[i].paths[j],
            ) by {
                assert(cur.0[i] == prev.0[i]);
            }
        }
    }
}

proof fn lemma_no_duplicate_errors(names: Seq<Seq<char>>)
    requires
        duplicate_name_errors(names).len() == 0,
    ensures
        distinct(names),
    decreases names.len(),
{
    if names.len() > 0 {
        let prev = names.drop_last();
        assert(!prev.contains(names.last()));
        lemma_no_duplicate_errors(prev);
        assert forall|i: int, j: int| 0 <= i < j < names.len() implies names[i] != names[j] by {
            if j == names.len() - 1 {
                assert(prev[i] == names[i]);
            } else {
                assert(prev[i] == names[i] && prev[j] == names[j]);
            }
        }
    }
}

/// An accepted perspective configuration keeps every perspective, under its
/// own name and in order, with every one of its paths; no two perspectives
/// share a name; and every path names a configured base directory and
/// resolves inside it.
pub proof fn law_accepted_configuration(cfg: PerspectivesConfig, fs: ResolvedPaths)
    requires
        cfg.errors_against(fs).len() == 0,
    ensures
        ({
            let v = cfg.validated_against(fs);
            &&& v.perspectives.len() == cfg.perspectives@.len()
            &&& forall|i: int|
                0 <= i < v.perspectives.len() ==> #[trigger] v.perspectives[i].name == cfg.perspectives@[i].name@
                    && v.perspectives[i].paths.len() == cfg.perspectives@[i].paths@.len()
            &&& forall|i: int, j: int| 0 <= i < j < v.perspectives.len() ==> v.perspectives[i].name != v.perspectives[j].name
            &&& forall|i: int, j: int|
                0 <= i < v.perspectives.len() && 0 <= j < v.perspectives[i].paths.len() ==> resolves_inside(
                    v.dirs,
                    path_probe_views(fs.paths@),
                    #[trigger] v.perspectives[i].paths[j],
                )
        }),
{
    let cd = cfg.dirs_view();
    let ce = cfg.entries_view();
    let dp = dir_probe_views(fs.dirs@);
    let pp = path_probe_views(fs.paths@);
    let d = dir_phase(cd, dp);
    let names = ce.map_values(|e: (Seq<char>, Seq<Seq<char>>)| e.0);
    let ep = entry_phase(d.0, pp, ce);
    assert(cfg.errors_against(fs) == d.1 + duplicate_name_errors(names) + ep.1);
    assert(duplicate_name_errors(names).len() == 0);
    assert(ep.1.len() == 0);
    lemma_no_duplicate_errors(names);
    lemma_entry_phase(d.0, pp, ce);
    let v = cfg.validated_against(fs);
    assert(v.perspectives == ep.0);
    assert forall|i: int| 0 <= i < v.perspectives.len() implies #[trigger] v.perspectives[i].name == cfg.perspectives@[i].name@
        && v.perspectives[i].paths.len() == cfg.perspectives@[i].paths@.len() by {
        assert(ce[i] == entry_view(cfg.perspectives@[i]));
    }
    assert forall|i: int, j: int| 0 <= i < j < v.perspectives.len() implies v.perspectives[i].name != v.perspectives[j].name by {
        assert(names[i] == ce[i].0 && names[j] == ce[j].0);
    }
}

/// `find` and `names` agree: a perspective is found under `name` exactly
/// when some perspective is called `name`.
pub proof fn law_find_agrees_with_names(ps: Seq<PerspectiveView>, name: Seq<char>)
    ensures
        first_named(ps, name) is Some <==> exists|i: int| 0 <= i < ps.len() && #[trigger] ps[i].name == name,
{
    lemma_first_named(ps, name);
}

// ---------------------------------------------------------------------------
// Plan location
// ---------------------------------------------------------------------------

/// A Blueprint directory `dir` found inside workspace root `ws` (both
/// canonical: no trailing separator) is read in the container where the
/// workspace mount puts it: a plan's container path is its host path under
/// `dir` with the workspace root replaced by the workspace mount.
pub proof fn law_inside_plan_mirrors_host_path(loc: PlanLocation, dir: Seq<char>, ws: Seq<char>, plan: Seq<char>)
    requires
        ws.len() > 0,
        ws.last() != '/',
        dir.len() > 0,
        dir.last() != '/',
        loc matches PlanLocation::InsideWorkspace { blueprint_host_dir, blueprint_rel_to_workspace }
            && blueprint_host_dir@ == dir && path_strip_prefix(dir, ws) == Some(blueprint_rel_to_workspace@),
    ensures
        container_plan_path_of(loc, plan) == WORKSPACE_MOUNT@ + dir.skip(ws.len() as int) + seq!['/'] + plan,
{
    if dir == ws {
        assert(dir.skip(ws.len() as int) =~= Seq::<char>::empty());
    } else {
        let rel = dir.skip(ws.len() + 1 as int);
        assert(seq_starts_with(dir, ws.push('/')));
        assert(dir[ws.len() as int] == ws.push('/')[ws.len() as int]);
        assert(dir.len() > ws.len() + 1) by {
            if dir.len() == ws.len() + 1 {
                assert(dir.last() == '/');
            }
        }
        assert(dir.skip(ws.len() as int) =~= seq!['/'] + rel);
    }
}

/// Whether `p` never has two separators in a row and, unless it is the
/// root, does not end with one (as canonical paths).
pub open spec fn canonical_form(p: Seq<char>) -> bool {
    &&& forall|i: int| 0 <= i < p.len() - 1 ==> !(#[trigger] p[i] == '/' && p[i + 1] == '/')
    &&& (p.len() > 1 ==> p.last() != '/')
}

/// Where the Blueprint directory `dir` lies inside workspace root `ws`, the
/// relative directory that plan resolution records joins back onto the
/// root to give `dir` (and is `dir` itself, empty, at the root): the
/// relative part is relative, and nothing is lost.
pub proof fn law_workspace_join_gives_back_dir(dir: Seq<char>, ws: Seq<char>)
    requires
        ws.len() > 0,
        canonical_form(dir),
        canonical_form(ws),
        path_strip_prefix(dir, ws) is Some,
    ensures
        ({
            let rel = path_strip_prefix(dir, ws).unwrap();
            &&& rel.len() == 0 ==> dir == ws
            &&& rel.len() > 0 ==> rel[0] != '/' && path_join(ws, rel) == dir
        }),
{
    let rel = path_strip_prefix(dir, ws).unwrap();
    if dir == ws {
    } else if ws.last() == '/' && seq_starts_with(dir, ws) {
        assert(dir.subrange(0, ws.len() as int) == ws);
        if rel.len() == 0 {
            assert(dir =~= ws);
        } else {
            assert(dir[ws.len() - 1] == '/');
            assert(rel[0] == dir[ws.len() as int]);
            assert(ws + rel =~= dir);
        }
    } else {
        assert(seq_starts_with(dir, ws.push('/')));
        let pre = ws.push('/');
        assert(dir.subrange(0, ws.len() + 1 as int) == pre);
        assert forall|i: int| 0 <= i <= ws.len() implies dir[i] == pre[i] by {
            assert(dir.subrange(0, ws.len() + 1 as int)[i] == dir[i]);
        }
        assert(pre[ws.len() as int] == '/');
        assert(dir[ws.len() as int] == '/');
        if rel.len() == 0 {
            assert(dir.len() == ws.len() + 1);
            assert(dir.last() == '/');
        } else {
            assert(rel[0] == dir[ws.len() + 1 as int]);
            if ws.last() == '/' {
                assert(dir[ws.len() - 1] == ws[ws.len() - 1]);
            }
            assert(rel =~= dir.skip(ws.len() + 1 as int));
            assert forall|i: int| 0 <= i < ws.len() implies dir[i] == ws[i] by {
                assert(pre[i] == ws[i]);
            }
            assert(ws + seq!['/'] + rel =~= dir);
        }
    }
}

// ---------------------------------------------------------------------------
// Keyed memories: terminal panes, pane snapshots, crash counts
// ---------------------------------------------------------------------------

/// A keyed memory (what a terminal pane shows, a worker's pane snapshot,
/// its crash count) gives back what was last written under a key, and a
/// write under one key leaves every other key as it was.
pub proof fn law_read_gives_back_last_write<V>(
    before: Seq<(Seq<char>, V)>,
    after: Seq<(Seq<char>, V)>,
    key: Seq<char>,
    value: V,
    other: Seq<char>,
)
    requires
        forall|k: Seq<char>| #[trigger] assoc(after, k) == assoc_set(before, key, value, k),
    ensures
        assoc(after, key) == Some(value),
        other != key ==> assoc(after, other) == assoc(before, other),
{
    assert(assoc(after, key) == assoc_set(before, key, value, key));
    assert(assoc(after, other) == assoc_set(before, key, value, other));
}


// ---------------------------------------------------------------------------
// Single decisions: readiness polls, worker checks, leaf plans, submissions
// ---------------------------------------------------------------------------

/// A readiness poll stops watching exactly when the worker is gone,
/// activates exactly when the pane shows the prompt, and types the
/// fresh-start command only once, only when the pane lacks the prompt and
/// the agent is not running; a pane without the prompt while the agent
/// runs means waiting.
pub proof fn law_readiness_poll(found: bool, pane_ready: Option<bool>, fallback_sent: bool, agent_running: bool)
    ensures
        ({
            let r = readiness_action_of(found, pane_ready, fallback_sent, agent_running);
            &&& (r == ReadinessAction::Stop <==> !found)
            &&& (r == ReadinessAction::Activate <==> found && pane_ready == Some(true))
            &&& (r == ReadinessAction::FreshStart <==> found && pane_ready == Some(false) && !fallback_sent
                && !agent_running)
            &&& (found && pane_ready == Some(false) && agent_running ==> r == ReadinessAction::Wait)
            &&& (found && pane_ready is None ==> r == ReadinessAction::Wait)
            &&& (fallback_sent ==> r != ReadinessAction::FreshStart)
        }),
{
}

/// A queued message is handed over only to an idle worker whose agent runs
/// and shows its prompt, and never to a member of a suspending workflow
/// (a supervisor still gets it, to approve prompts); an idle worker that
/// may receive and whose agent is not running is restarted, and one whose
/// agent runs without a prompt is waited for.
pub proof fn law_delivery(
    status: Option<WorkerStatus>,
    role: WorkerRole,
    suspending: bool,
    agent_running: bool,
    pane_ready: bool,
)
    ensures
        ({
            let a = delivery_action_of(status, role, suspending, agent_running, pane_ready);
            let may_receive = status == Some(WorkerStatus::Idle) && (role.supervises() || !suspending);
            &&& (a == DeliveryAction::Skip <==> !may_receive)
            &&& (a == DeliveryAction::Deliver <==> may_receive && agent_running && pane_ready)
            &&& (a == DeliveryAction::Restart <==> may_receive && !agent_running)
            &&& (a == DeliveryAction::Defer <==> may_receive && agent_running && !pane_ready)
            &&& (role == WorkerRole::Member && suspending ==> a == DeliveryAction::Skip)
        }),
{
}

/// Whether a poll looks at a worker in `status` at all.
pub open spec fn monitored_status(status: WorkerStatus) -> bool {
    !(status == WorkerStatus::Booting || status == WorkerStatus::Crashed || status == WorkerStatus::Suspended)
}

/// A monitoring poll leaves booting, crashed and suspended workers and every
/// worker of a suspending workflow alone; it takes a worker for crashed
/// exactly when it is otherwise monitored, the poll checks liveness and its
/// container is not running; and it reads the pane of every other monitored
/// worker.
pub proof fn law_worker_check(status: WorkerStatus, suspending: bool, check_liveness: bool, container_running: bool)
    ensures
        ({
            let c = check_for(status, suspending, check_liveness, container_running);
            &&& (suspending ==> c == WorkerCheck::Skip)
            &&& (!monitored_status(status) ==> c == WorkerCheck::Skip)
            &&& (c == WorkerCheck::Crash <==> monitored_status(status) && !suspending && check_liveness
                && !container_running)
            &&& (c == WorkerCheck::CheckPane <==> monitored_status(status) && !suspending && !(check_liveness
                && !container_running))
            &&& (container_running ==> c != WorkerCheck::Crash)
            &&& (!check_liveness ==> c != WorkerCheck::Crash)
        }),
{
}

/// A leaf task's job keeps the task's own plan path, unless it is a review
/// task without one.
pub proof fn law_leaf_keeps_its_plan(ts: Seq<Task>, t: Task)
    requires
        !(t.job_type == Some(JobType::Review) && t.plan_path is None),
    ensures
        leaf_plan_path(ts, t) == t.plan_path,
{
}

/// A review task without a plan path takes the plan path of its parent
/// (the first task with the parent's id), and keeps none when it has no
/// parent or the parent is not found.
pub proof fn law_review_leaf_inherits_parent_plan(ts: Seq<Task>, t: Task)
    requires
        t.job_type == Some(JobType::Review),
        t.plan_path is None,
    ensures
        t.parent_id is None ==> leaf_plan_path(ts, t) is None,
        t.parent_id matches Some(pid) ==> (forall|j: int|
            0 <= j < ts.len() && ts[j].id@ == pid@ && (forall|m: int| 0 <= m < j ==> ts[m].id@ != pid@)
                ==> leaf_plan_path(ts, t) == #[trigger] ts[j].plan_path),
        t.parent_id matches Some(pid) ==> ((forall|j: int| 0 <= j < ts.len() ==> ts[j].id@ != pid@)
            ==> leaf_plan_path(ts, t) is None),
{
    if let Some(pid) = t.parent_id {
        lemma_task_pos(ts, pid@);
        assert forall|j: int|
            0 <= j < ts.len() && ts[j].id@ == pid@ && (forall|m: int| 0 <= m < j ==> ts[m].id@ != pid@)
                implies leaf_plan_path(ts, t) == #[trigger] ts[j].plan_path by {
            assert(task_of(ts, pid@) == Some(ts[j]));
        }
    }
}

/// A composite task without a job of its own is supervised by an approver,
/// and only such a task is; a review-integration composite is the only one
/// whose job is created without a member; a craft composite is the only one
/// that leaves its children for later.
pub proof fn law_composite_activation(job_type: Option<JobType>)
    ensures
        ({
            let r = composite_activation_of(job_type);
            &&& (r == CompositeActivation::SpawnApprover <==> job_type is None)
            &&& (r == CompositeActivation::CreateOnly <==> job_type == Some(JobType::ReviewIntegrate))
            &&& (r == CompositeActivation::CreateAndAssign { resolve_children: false } <==> job_type == Some(
                JobType::Craft,
            ))
            &&& (job_type matches Some(j) && j != JobType::Craft && j != JobType::ReviewIntegrate ==> r
                == CompositeActivation::CreateAndAssign { resolve_children: true })
        }),
{
}

/// A task completes only when its own job is done and none of its children
/// is left uncompleted; a task whose job is done and whose children have
/// all completed (or that has none) completes.
pub proof fn law_task_completion(ts: Seq<Task>, task_id: Seq<char>, job_status: JobStatus)
    ensures
        completes(ts, task_id, job_status) ==> job_status.done(),
        forall|i: int|
            0 <= i < ts.len() && is_child(#[trigger] ts[i], task_id) && ts[i].status != TaskStatus::Completed
                ==> !completes(ts, task_id, job_status),
        job_status.done() && (forall|i: int|
            0 <= i < ts.len() && is_child(#[trigger] ts[i], task_id) ==> ts[i].status == TaskStatus::Completed)
            ==> completes(ts, task_id, job_status),
{
}

/// An integrator's submission waits, whatever its verdict, while a review
/// worker's artifact is missing, and only then; otherwise the latest
/// verdict is applied as it is: changes requested keep the member, an
/// approval finishes the review and releases it.
pub proof fn law_submission_step(is_integrator: bool, artifacts_present: bool, latest: Option<Verdict>)
    ensures
        ({
            let s = submission_step_of(is_integrator, artifacts_present, latest);
            &&& (s == SubmissionStep::Blocked <==> is_integrator && !artifacts_present)
            &&& (s == SubmissionStep::NoSubmission <==> !(is_integrator && !artifacts_present) && latest is None)
            &&& (s matches SubmissionStep::Apply { verdict, status, release_member } ==> {
                &&& latest == Some(verdict)
                &&& release_member == (verdict == Verdict::Approved)
                &&& status == if verdict == Verdict::Approved {
                    JobStatus::Review(ReviewStatus::Done)
                } else {
                    JobStatus::Review(ReviewStatus::ChangesRequested)
                }
            })
            &&& (!(is_integrator && !artifacts_present) && latest is Some ==> s is Apply)
        }),
{
}

// ---------------------------------------------------------------------------
// Suspend: nobody is left running
// ---------------------------------------------------------------------------

/// When the wait has timed out, every busy member still waited for that the
/// store still knows is stopped, whatever its status.
pub proof fn law_force_stop_stops_every_known_member(
    sz: PlanSizes,
    pending: Seq<usize>,
    next: nat,
    statuses: Seq<Option<WorkerStatus>>,
    elapsed_ms: u64,
)
    requires
        next < pending.len(),
        statuses[pending[next as int] as int] is Some,
    ensures
        suspend_step_of(sz, PhaseView::ForceStop { pending, next }, statuses, elapsed_ms).1 == SuspendAction::Stop(
            SuspendTarget::Busy(pending[next as int]),
        ),
{
}

/// While busy members are waited for, the suspend sleeps and looks again
/// until the timeout, and force-stops once it has passed (or once nobody is
/// left to wait for); it never force-stops early nor waits past the
/// timeout.
pub proof fn law_wait_until_timeout(sz: PlanSizes, pending: Seq<usize>, statuses: Seq<Option<WorkerStatus>>, elapsed_ms: u64)
    ensures
        ({
            let (q, a) = suspend_step_of(sz, PhaseView::Waiting { pending }, statuses, elapsed_ms);
            &&& (pending.len() > 0 && elapsed_ms < crate::lifecycle::SUSPEND_TIMEOUT_MS ==> q is Sweep && q->Sweep_pending
                == pending && q->Sweep_next == 0 && q->Sweep_kept.len() == 0 && a
                == SuspendAction::Sleep { ms: crate::lifecycle::SUSPEND_POLL_INTERVAL_MS })
            &&& (crate::lifecycle::SUSPEND_TIMEOUT_MS <= elapsed_ms ==> q == PhaseView::ForceStop { pending, next: 0 })
            &&& (pending.len() == 0 ==> q == PhaseView::ForceStop { pending, next: 0 })
            &&& touched(a) is None
        }),
{
}

/// Looking at a busy member after a sleep: one that became idle is
/// stopped, one that crashed is marked Suspended, one still working or
/// waiting for a permission is waited for further, and one that is gone
/// (or in any other state) is no longer waited for.
pub proof fn law_sweep_follows_member_status(
    sz: PlanSizes,
    pending: Seq<usize>,
    next: nat,
    kept: Seq<usize>,
    statuses: Seq<Option<WorkerStatus>>,
    elapsed_ms: u64,
)
    requires
        next < pending.len(),
    ensures
        ({
            let k = pending[next as int];
            let s = statuses[k as int];
            let (q, a) = suspend_step_of(sz, PhaseView::Sweep { pending, next, kept }, statuses, elapsed_ms);
            &&& q is Sweep && q->Sweep_pending == pending && q->Sweep_next == next + 1
            &&& (s == Some(WorkerStatus::Idle) ==> a == SuspendAction::Stop(SuspendTarget::Busy(k)) && q->Sweep_kept == kept)
            &&& (s == Some(WorkerStatus::Crashed) ==> a == SuspendAction::MarkSuspended { member: k } && q->Sweep_kept
                == kept)
            &&& (s == Some(WorkerStatus::Working) || s == Some(WorkerStatus::WaitingPermission) ==> a
                == SuspendAction::Continue && q->Sweep_kept == kept.push(k))
            &&& (!(s == Some(WorkerStatus::Idle) || s == Some(WorkerStatus::Crashed) || s == Some(WorkerStatus::Working)
                || s == Some(WorkerStatus::WaitingPermission)) ==> a == SuspendAction::Continue && q->Sweep_kept == kept)
        }),
{
}

/// A worker of a plan with `sz`.
pub open spec fn plan_target(sz: PlanSizes, t: SuspendTarget) -> bool {
    match t {
        SuspendTarget::Idle(k) => k < sz.idle,
        SuspendTarget::Busy(k) => k < sz.busy,
        SuspendTarget::Supervisor(k) => k < sz.supervisors,
    }
}

/// Whether the store's answer for a busy member lets the suspend forget
/// it (it is gone, or neither busy, idle nor crashed).
pub open spec fn forgettable(s: Option<WorkerStatus>) -> bool {
    pending_outcome_of(s) == PendingOutcome::Drop
}

/// A busy member that a sweep or a force-stop has still ahead of it
/// (at position `m`) is within reach.
proof fn lemma_busy_ahead(sz: PlanSizes, p: PhaseView, k: usize, m: int)
    requires
        k < sz.busy,
        p is Sweep ==> p->Sweep_next <= m < p->Sweep_pending.len() && p->Sweep_pending[m] == k,
        p is ForceStop ==> p->ForceStop_next <= m < p->ForceStop_pending.len() && p->ForceStop_pending[m] == k,
        p is Sweep || p is ForceStop,
    ensures
        can_touch(sz, p, SuspendTarget::Busy(k)),
{
    if p is Sweep {
        assert(exists|m2: int|
            p->Sweep_next <= m2 < p->Sweep_pending.len() && #[trigger] p->Sweep_pending[m2] == k);
    } else {
        assert(exists|m2: int|
            p->ForceStop_next <= m2 < p->ForceStop_pending.len() && #[trigger] p->ForceStop_pending[m2] == k);
    }
}

/// A step lets a worker go out of reach only by stopping or marking it, or,
/// for a busy member, when the store's answer lets it be forgotten.
proof fn lemma_step_loses_only_touched(
    sz: PlanSizes,
    p: PhaseView,
    statuses: Seq<Option<WorkerStatus>>,
    elapsed_ms: u64,
    t: SuspendTarget,
)
    requires
        phase_wf(sz, p),
        sizes_fit(sz),
        can_touch(sz, p, t),
        !can_touch(sz, suspend_step_of(sz, p, statuses, elapsed_ms).0, t),
    ensures
        touched(suspend_step_of(sz, p, statuses, elapsed_ms).1) == Some(t) || (t matches SuspendTarget::Busy(k)
            && forgettable(statuses[k as int])),
{
    let (q, a) = suspend_step_of(sz, p, statuses, elapsed_ms);
    match p {
        PhaseView::StopIdle { next } => {
            if next >= sz.idle {
                if let SuspendTarget::Busy(k) = t {
                    let all = crate::suspend::all_busy(sz.busy);
                    assert(q == PhaseView::Waiting { pending: all });
                    assert(all[k as int] == k);
                    assert(all.contains(k));
                    assert(can_touch(sz, q, t));
                }
            } else {
                assert(q == PhaseView::StopIdle { next: next + 1 });
                assert(a == SuspendAction::Stop(SuspendTarget::Idle(next as usize)));
                if let SuspendTarget::Idle(k) = t {
                    assert(k == next);
                }
            }
            assert(can_touch(sz, q, t) || touched(a) == Some(t) || (t matches SuspendTarget::Busy(kk) && forgettable(statuses[kk as int])));
        },
        PhaseView::Waiting { pending } => {
            if let SuspendTarget::Busy(k) = t {
                let m = choose|m: int| 0 <= m < pending.len() && pending[m] == k;
                lemma_busy_ahead(sz, PhaseView::Sweep { pending, next: 0, kept: Seq::empty() }, k, m);
                lemma_busy_ahead(sz, PhaseView::ForceStop { pending, next: 0 }, k, m);
            }
            assert(can_touch(sz, q, t) || touched(a) == Some(t) || (t matches SuspendTarget::Busy(kk) && forgettable(statuses[kk as int])));
        },
        PhaseView::Sweep { pending, next, kept } => {
            if let SuspendTarget::Busy(j) = t {
                if next < pending.len() {
                    let k = pending[next as int];
                    let o = pending_outcome_of(statuses[k as int]);
                    let kept2 = if o == PendingOutcome::Wait { kept.push(k) } else { kept };
                    assert(q == PhaseView::Sweep { pending, next: next + 1, kept: kept2 });
                    if kept.contains(j) {
                        let i = choose|i: int| 0 <= i < kept.len() && kept[i] == j;
                        assert(kept2[i] == j);
                        assert(kept2.contains(j));
                    } else {
                        let m = choose|m: int| next <= m < pending.len() && #[trigger] pending[m] == j;
                        if m > next {
                            lemma_busy_ahead(sz, q, j, m);
                        } else if o == PendingOutcome::Wait {
                            assert(kept2[kept.len() as int] == j);
                            assert(kept2.contains(j));
                        } else {
                            assert(j == k);
                        }
                    }
                } else {
                    assert(q == PhaseView::Waiting { pending: kept });
                    if !kept.contains(j) {
                        let m = choose|m: int| next <= m < pending.len() && #[trigger] pending[m] == j;
                        assert(false);
                    }
                }
            }
            assert(can_touch(sz, q, t) || touched(a) == Some(t) || (t matches SuspendTarget::Busy(kk) && forgettable(statuses[kk as int])));
        },
        PhaseView::ForceStop { pending, next } => {
            if let SuspendTarget::Busy(j) = t {
                let m = choose|m: int| next <= m < pending.len() && #[trigger] pending[m] == j;
                assert(next < pending.len());
                assert(q == PhaseView::ForceStop { pending, next: next + 1 });
                if m > next {
                    lemma_busy_ahead(sz, q, j, m);
                } else {
                    assert(j == pending[next as int]);
                }
            }
            assert(can_touch(sz, q, t) || touched(a) == Some(t) || (t matches SuspendTarget::Busy(kk) && forgettable(statuses[kk as int])));
        },
        _ => {
            assert(can_touch(sz, q, t) || touched(a) == Some(t) || (t matches SuspendTarget::Busy(kk) && forgettable(statuses[kk as int])));
        },
    }
}

/// In a run that goes on from step `j` to step `n`, a worker within reach at
/// `j` and out of reach at `n` goes out of reach at some step between.
proof fn lemma_first_loss(
    sz: PlanSizes,
    phases: Seq<PhaseView>,
    t: SuspendTarget,
    j: int,
    n: int,
) -> (i: int)
    requires
        0 <= j <= n < phases.len(),
        can_touch(sz, phases[j], t),
        !can_touch(sz, phases[n], t),
    ensures
        j <= i < n,
        can_touch(sz, phases[i], t),
        !can_touch(sz, phases[i + 1], t),
    decreases n - j,
{
    if can_touch(sz, phases[j + 1], t) {
        lemma_first_loss(sz, phases, t, j + 1, n)
    } else {
        j
    }
}

/// Over a run of a suspend that reaches its end, every idle member and
/// every supervisor of the plan is stopped, and every busy member is stopped
/// or marked Suspended unless the store's answer let it be forgotten at
/// some step; with the at-most-once law, each such worker is touched
/// exactly once.
pub proof fn law_suspend_leaves_no_worker_running(
    sz: PlanSizes,
    phases: Seq<PhaseView>,
    actions: Seq<SuspendAction>,
    statuses: Seq<Seq<Option<WorkerStatus>>>,
    elapsed: Seq<u64>,
    t: SuspendTarget,
)
    requires
        sizes_fit(sz),
        suspend_run(sz, phases, actions, statuses, elapsed),
        phases.last() == PhaseView::Done,
        plan_target(sz, t),
        t matches SuspendTarget::Busy(k) ==> forall|i: int|
            0 <= i < actions.len() ==> !forgettable(#[trigger] statuses[i][k as int]),
    ensures
        exists|i: int| 0 <= i < actions.len() && touched(#[trigger] actions[i]) == Some(t),
{
    let n = phases.len() - 1;
    assert(can_touch(sz, phases[0], t));
    assert(!can_touch(sz, phases[n], t));
    let i = lemma_first_loss(sz, phases, t, 0, n);
    lemma_suspend_run(sz, phases, actions, statuses, elapsed, i);
    assert((phases[i + 1], actions[i]) == suspend_step_of(sz, phases[i], statuses[i], elapsed[i]));
    lemma_step_loses_only_touched(sz, phases[i], statuses[i], elapsed[i], t);
    if let SuspendTarget::Busy(k) = t {
        assert(!forgettable(statuses[i][k as int]));
    }
    assert(touched(actions[i]) == Some(t));
}

/// Whether a suspend in phase `p` has still to mark workflow `w`
/// Suspending (`suspended` false) or Suspended (`suspended` true).
pub open spec fn marking_ahead(p: PhaseView, w: nat, suspended: bool) -> bool {
    if suspended {
        phase_rank(p) < 4 || (p matches PhaseView::MarkSuspended { next } && next <= w)
    } else {
        p matches PhaseView::MarkSuspending { next } && next <= w
    }
}

/// In a run of phases from step `j` to step `n`, if a marking is ahead at
/// `j` and not at `n`, it stops being ahead at some step between.
proof fn lemma_first_marking(phases: Seq<PhaseView>, w: nat, suspended: bool, j: int, n: int) -> (i: int)
    requires
        0 <= j <= n < phases.len(),
        marking_ahead(phases[j], w, suspended),
        !marking_ahead(phases[n], w, suspended),
    ensures
        j <= i < n,
        marking_ahead(phases[i], w, suspended),
        !marking_ahead(phases[i + 1], w, suspended),
    decreases n - j,
{
    if marking_ahead(phases[j + 1], w, suspended) {
        lemma_first_marking(phases, w, suspended, j + 1, n)
    } else {
        j
    }
}

/// Over a run of a suspend that reaches its end, every workflow of the plan
/// is marked Suspending and later marked Suspended.
pub proof fn law_suspend_marks_every_workflow(
    sz: PlanSizes,
    phases: Seq<PhaseView>,
    actions: Seq<SuspendAction>,
    statuses: Seq<Seq<Option<WorkerStatus>>>,
    elapsed: Seq<u64>,
    w: nat,
)
    requires
        sizes_fit(sz),
        suspend_run(sz, phases, actions, statuses, elapsed),
        phases.last() == PhaseView::Done,
        w < sz.workflows,
    ensures
        exists|i: int|
            0 <= i < actions.len() && #[trigger] actions[i] == (SuspendAction::SetWorkflowStatus {
                workflow: w as usize,
                status: WorkflowStatus::Suspending,
            }),
        exists|i: int|
            0 <= i < actions.len() && #[trigger] actions[i] == (SuspendAction::SetWorkflowStatus {
                workflow: w as usize,
                status: WorkflowStatus::Suspended,
            }),
{
    let n = phases.len() - 1;
    let i = lemma_first_marking(phases, w, false, 0, n);
    assert((phases[i + 1], actions[i]) == suspend_step_of(sz, phases[i], statuses[i], elapsed[i]));
    assert(actions[i] == SuspendAction::SetWorkflowStatus { workflow: w as usize, status: WorkflowStatus::Suspending });
    let j = lemma_first_marking(phases, w, true, 0, n);
    assert((phases[j + 1], actions[j]) == suspend_step_of(sz, phases[j], statuses[j], elapsed[j]));
    assert(actions[j] == SuspendAction::SetWorkflowStatus { workflow: w as usize, status: WorkflowStatus::Suspended });
}

} // verus!
