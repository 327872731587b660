//! The graceful suspend, one step at a time: mark the workflows
//! Suspending, stop idle and booting members, wait for busy members (stopping
//! each as it finishes, marking crashed ones Suspended, force-stopping the
//! rest at the timeout), stop the supervisors, and mark the workflows
//! Suspended. The caller performs each action and hands back what the data
//! store says of the members still waited for.
use vstd::prelude::*;
use crate::domain::{WorkerStatus, WorkflowStatus};
use crate::lifecycle::{
    pending_outcome, pending_outcome_of, suspend_keeps_waiting, PendingOutcome, SuspendPlan,
    SUSPEND_POLL_INTERVAL_MS, SUSPEND_TIMEOUT_MS,
};

verus! {

/// A worker of a suspend plan, by its list and its position in it.
#[derive(Debug, Clone, Copy, PartialEq, Eq, Structural)]
pub enum SuspendTarget {
    /// A member of `plan.immediate`.
    Idle(usize),
    /// A member of `plan.pending`.
    Busy(usize),
    /// A supervisor of `plan.supervisors`.
    Supervisor(usize),
}

/// What the caller does next.
#[derive(Debug, Clone, Copy, PartialEq, Eq, Structural)]
pub enum SuspendAction {
    /// Set the status of workflow `plan.workflow_ids[workflow]`.
    SetWorkflowStatus { workflow: usize, status: WorkflowStatus },
    /// Stop the worker's container and mark it Suspended.
    Stop(SuspendTarget),
    /// Mark busy member `plan.pending[member]` Suspended without stopping
    /// anything (it crashed meanwhile).
    MarkSuspended { member: usize },
    /// Start the clock that the wait for busy members is timed by.
    StartClock,
    /// Sleep `ms` before looking at the busy members again.
    Sleep { ms: u64 },
    /// Nothing to do; take the next step.
    Continue,
    /// The suspend is over.
    Finished,
}

/// Where a suspend stands.
#[derive(Debug, Clone)]
pub enum SuspendPhase {
    /// Marking workflow `next` (and the later ones) Suspending.
    MarkSuspending { next: usize },
    /// Stopping idle member `next` (and the later ones).
    StopIdle { next: usize },
    /// Waiting for the busy members `pending` (positions in
    /// `plan.pending`, increasing).
    Waiting { pending: Vec<usize> },
    /// Looking at busy member `pending[next]` after a sleep; `kept` are the
    /// ones still busy so far.
    Sweep { pending: Vec<usize>, next: usize, kept: Vec<usize> },
    /// The wait timed out: force-stopping `pending[next]` (and the later
    /// ones).
    ForceStop { pending: Vec<usize>, next: usize },
    /// Stopping supervisor `next` (and the later ones).
    StopSupervisors { next: usize },
    /// Marking workflow `next` (and the later ones) Suspended.
    MarkSuspended { next: usize },
    /// Nothing left to do.
    Done,
}

/// A suspend phase as values.
pub enum PhaseView {
    MarkSuspending { next: nat },
    StopIdle { next: nat },
    Waiting { pending: Seq<usize> },
    Sweep { pending: Seq<usize>, next: nat, kept: Seq<usize> },
    ForceStop { pending: Seq<usize>, next: nat },
    StopSupervisors { next: nat },
    MarkSuspended { next: nat },
    Done,
}

impl View for SuspendPhase {
    type V = PhaseView;

    open spec fn view(&self) -> PhaseView {
        match self {
            SuspendPhase::MarkSuspending { next } => PhaseView::MarkSuspending { next: *next as nat },
            SuspendPhase::StopIdle { next } => PhaseView::StopIdle { next: *next as nat },
            SuspendPhase::Waiting { pending } => PhaseView::Waiting { pending: pending@ },
            SuspendPhase::Sweep { pending, next, kept } => PhaseView::Sweep {
                pending: pending@,
                next: *next as nat,
                kept: kept@,
            },
            SuspendPhase::ForceStop { pending, next } => PhaseView::ForceStop { pending: pending@, next: *next as nat },
            SuspendPhase::StopSupervisors { next } => PhaseView::StopSupervisors { next: *next as nat },
            SuspendPhase::MarkSuspended { next } => PhaseView::MarkSuspended { next: *next as nat },
            SuspendPhase::Done => PhaseView::Done,
        }
    }
}

/// The sizes of a suspend plan's lists.
pub struct PlanSizes {
    pub workflows: nat,
    pub idle: nat,
    pub busy: nat,
    pub supervisors: nat,
}

pub open spec fn plan_sizes(plan: SuspendPlan) -> PlanSizes {
    PlanSizes {
        workflows: plan.workflow_ids@.len(),
        idle: plan.immediate@.len(),
        busy: plan.pending@.len(),
        supervisors: plan.supervisors@.len(),
    }
}

/// Whether every list of a plan with `sz` can be indexed by a `usize`.
pub open spec fn sizes_fit(sz: PlanSizes) -> bool {
    &&& sz.workflows <= usize::MAX
    &&& sz.idle <= usize::MAX
    &&& sz.busy <= usize::MAX
    &&& sz.supervisors <= usize::MAX
}

/// Whether `s` increases strictly.
pub open spec fn increasing(s: Seq<usize>) -> bool {
    forall|a: int, b: int| 0 <= a < b < s.len() ==> s[a] < s[b]
}

/// `0, 1, ..., n - 1`.
pub open spec fn all_busy(n: nat) -> Seq<usize> {
    Seq::new(n, |i: int| i as usize)
}

/// A phase that a suspend of a plan with `sz` can be in.
pub open spec fn phase_wf(sz: PlanSizes, p: PhaseView) -> bool {
    match p {
        PhaseView::MarkSuspending { next } => next <= sz.workflows,
        PhaseView::StopIdle { next } => next <= sz.idle,
        PhaseView::Waiting { pending } => increasing(pending) && forall|i: int|
            0 <= i < pending.len() ==> #[trigger] pending[i] < sz.busy,
        PhaseView::Sweep { pending, next, kept } => {
            &&& increasing(pending)
            &&& forall|i: int| 0 <= i < pending.len() ==> #[trigger] pending[i] < sz.busy
            &&& next <= pending.len()
            &&& increasing(kept)
            &&& forall|i: int| 0 <= i < kept.len() ==> exists|m: int| 0 <= m < next && pending[m] == #[trigger] kept[i]
        },
        PhaseView::ForceStop { pending, next } => increasing(pending) && (forall|i: int|
            0 <= i < pending.len() ==> #[trigger] pending[i] < sz.busy) && next <= pending.len(),
        PhaseView::StopSupervisors { next } => next <= sz.supervisors,
        PhaseView::MarkSuspended { next } => next <= sz.workflows,
        PhaseView::Done => true,
    }
}

/// The first phase of a suspend.
pub open spec fn initial_phase_view() -> PhaseView {
    PhaseView::MarkSuspending { next: 0 }
}

/// One step of a suspend of a plan with `sz`: from phase `p`, given what
/// the store says of each busy member (`statuses[k]` for `plan.pending[k]`,
/// `None` when it is gone) and the time since the clock was started, the
/// next phase and the action to perform.
pub open spec fn suspend_step_of(
    sz: PlanSizes,
    p: PhaseView,
    statuses: Seq<Option<WorkerStatus>>,
    elapsed_ms: u64,
) -> (PhaseView, SuspendAction) {
    match p {
        PhaseView::MarkSuspending { next } => if next < sz.workflows {
            (
                PhaseView::MarkSuspending { next: next + 1 },
                SuspendAction::SetWorkflowStatus { workflow: next as usize, status: WorkflowStatus::Suspending },
            )
        } else {
            (PhaseView::StopIdle { next: 0 }, SuspendAction::Continue)
        },
        PhaseView::StopIdle { next } => if next < sz.idle {
            (PhaseView::StopIdle { next: next + 1 }, SuspendAction::Stop(SuspendTarget::Idle(next as usize)))
        } else {
            (PhaseView::Waiting { pending: all_busy(sz.busy) }, SuspendAction::StartClock)
        },
        PhaseView::Waiting { pending } => if pending.len() > 0 && elapsed_ms < SUSPEND_TIMEOUT_MS {
            (
                PhaseView::Sweep { pending, next: 0, kept: Seq::empty() },
                SuspendAction::Sleep { ms: SUSPEND_POLL_INTERVAL_MS },
            )
        } else {
            (PhaseView::ForceStop { pending, next: 0 }, SuspendAction::Continue)
        },
        PhaseView::Sweep { pending, next, kept } => if next < pending.len() {
            let k = pending[next as int];
            let after = PhaseView::Sweep { pending, next: next + 1, kept };
            match pending_outcome_of(statuses[k as int]) {
                PendingOutcome::Suspend => (after, SuspendAction::Stop(SuspendTarget::Busy(k))),
                PendingOutcome::MarkSuspended => (after, SuspendAction::MarkSuspended { member: k }),
                PendingOutcome::Wait => (
                    PhaseView::Sweep { pending, next: next + 1, kept: kept.push(k) },
                    SuspendAction::Continue,
                ),
                PendingOutcome::Drop => (after, SuspendAction::Continue),
            }
        } else {
            (PhaseView::Waiting { pending: kept }, SuspendAction::Continue)
        },
        PhaseView::ForceStop { pending, next } => if next < pending.len() {
            let k = pending[next as int];
            (
                PhaseView::ForceStop { pending, next: next + 1 },
                if statuses[k as int] is Some {
                    SuspendAction::Stop(SuspendTarget::Busy(k))
                } else {
                    SuspendAction::Continue
                },
            )
        } else {
            (PhaseView::StopSupervisors { next: 0 }, SuspendAction::Continue)
        },
        PhaseView::StopSupervisors { next } => if next < sz.supervisors {
            (
                PhaseView::StopSupervisors { next: next + 1 },
                SuspendAction::Stop(SuspendTarget::Supervisor(next as usize)),
            )
        } else {
            (PhaseView::MarkSuspended { next: 0 }, SuspendAction::Continue)
        },
        PhaseView::MarkSuspended { next } => if next < sz.workflows {
            (
                PhaseView::MarkSuspended { next: next + 1 },
                SuspendAction::SetWorkflowStatus { workflow: next as usize, status: WorkflowStatus::Suspended },
            )
        } else {
            (PhaseView::Done, SuspendAction::Finished)
        },
        PhaseView::Done => (PhaseView::Done, SuspendAction::Finished),
    }
}

/// The first phase of a suspend: marking the first workflow Suspending.
pub fn initial_suspend_phase() -> (p: SuspendPhase)
    ensures
        p@ == initial_phase_view(),
{
    SuspendPhase::MarkSuspending { next: 0 }
}

fn busy_positions(n: usize) -> (r: Vec<usize>)
    ensures
        r@ == all_busy(n as nat),
{
    let mut r: Vec<usize> = Vec::new();
    let mut i: usize = 0;
    while i < n
        invariant
            i <= n,
            r@ == all_busy(i as nat),
        decreases n - i,
    {
        r.push(i);
        assert(r@ =~= all_busy((i + 1) as nat));
        i = i + 1;
    }
    r
}

fn copy_positions(v: &Vec<usize>) -> (r: Vec<usize>)
    ensures
        r@ == v@,
{
    let mut r: Vec<usize> = Vec::new();
    let mut i: usize = 0;
    while i < v.len()
        invariant
            i <= v@.len(),
            r@ == v@.take(i as int),
        decreases v@.len() - i,
    {
        r.push(v[i]);
        assert(r@ =~= v@.take(i + 1));
        i = i + 1;
    }
    assert(v@.take(v@.len() as int) =~= v@);
    r
}

/// Take one step of a suspend of `plan` (see [`suspend_step_of`]): the
/// workflows are marked Suspending before anything is stopped, idle and
/// booting members are stopped first, busy members are waited for until
/// [`SUSPEND_TIMEOUT_MS`] (each stopped once it is idle, marked Suspended
/// if it crashed, dropped if it is gone) and then force-stopped, the
/// supervisors are stopped only once no member is waited for, and the
/// workflows are marked Suspended last.
pub fn suspend_step(
    plan: &SuspendPlan,
    phase: &SuspendPhase,
    statuses: &Vec<Option<WorkerStatus>>,
    elapsed_ms: u64,
) -> (r: (SuspendPhase, SuspendAction))
    requires
        phase_wf(plan_sizes(*plan), phase@),
        statuses@.len() == plan.pending@.len(),
    ensures
        (r.0@, r.1) == suspend_step_of(plan_sizes(*plan), phase@, statuses@, elapsed_ms),
        phase_wf(plan_sizes(*plan), r.0@),
{
    let ghost sz = plan_sizes(*plan);
    match phase {
        SuspendPhase::MarkSuspending { next } => if *next < plan.workflow_ids.len() {
            (
                SuspendPhase::MarkSuspending { next: *next + 1 },
                SuspendAction::SetWorkflowStatus { workflow: *next, status: WorkflowStatus::Suspending },
            )
        } else {
            (SuspendPhase::StopIdle { next: 0 }, SuspendAction::Continue)
        },
        SuspendPhase::StopIdle { next } => if *next < plan.immediate.len() {
            (SuspendPhase::StopIdle { next: *next + 1 }, SuspendAction::Stop(SuspendTarget::Idle(*next)))
        } else {
            let pending = busy_positions(plan.pending.len());
            (SuspendPhase::Waiting { pending }, SuspendAction::StartClock)
        },
        SuspendPhase::Waiting { pending } => {
            let p = copy_positions(pending);
            if suspend_keeps_waiting(pending.len(), elapsed_ms) {
                (
                    SuspendPhase::Sweep { pending: p, next: 0, kept: Vec::new() },
                    SuspendAction::Sleep { ms: SUSPEND_POLL_INTERVAL_MS },
                )
            } else {
                (SuspendPhase::ForceStop { pending: p, next: 0 }, SuspendAction::Continue)
            }
        },
        SuspendPhase::Sweep { pending, next, kept } => {
            let p = copy_positions(pending);
            let mut kp = copy_positions(kept);
            if *next < pending.len() {
                let k = pending[*next];
                match pending_outcome(statuses[k]) {
                    PendingOutcome::Suspend => (
                        SuspendPhase::Sweep { pending: p, next: *next + 1, kept: kp },
                        SuspendAction::Stop(SuspendTarget::Busy(k)),
                    ),
                    PendingOutcome::MarkSuspended => (
                        SuspendPhase::Sweep { pending: p, next: *next + 1, kept: kp },
                        SuspendAction::MarkSuspended { member: k },
                    ),
                    PendingOutcome::Wait => {
                        let ghost before = kp@;
                        kp.push(k);
                        proof {
                            assert forall|i: int| 0 <= i < kp@.len() implies exists|m: int|
                                0 <= m < *next + 1 && pending@[m] == #[trigger] kp@[i] by {
                                if i < before.len() {
                                    let m = choose|m: int| 0 <= m < *next && pending@[m] == before[i];
                                    assert(pending@[m] == kp@[i]);
                                } else {
                                    assert(pending@[*next as int] == kp@[i]);
                                }
                            }
                            assert forall|a: int, b: int| 0 <= a < b < kp@.len() implies kp@[a] < kp@[b] by {
                                if b == kp@.len() - 1 {
                                    let m = choose|m: int| 0 <= m < *next && pending@[m] == before[a];
                                    assert(pending@[m] < pending@[*next as int]);
                                }
                            }
                        }
                        (SuspendPhase::Sweep { pending: p, next: *next + 1, kept: kp }, SuspendAction::Continue)
                    },
                    PendingOutcome::Drop => (
                        SuspendPhase::Sweep { pending: p, next: *next + 1, kept: kp },
                        SuspendAction::Continue,
                    ),
                }
            } else {
                proof {
                    assert forall|i: int| 0 <= i < kp@.len() implies #[trigger] kp@[i] < sz.busy by {
                        let m = choose|m: int| 0 <= m < *next && pending@[m] == kp@[i];
                    }
                }
                (SuspendPhase::Waiting { pending: kp }, SuspendAction::Continue)
            }
        },
        SuspendPhase::ForceStop { pending, next } => {
            let p = copy_positions(pending);
            if *next < pending.len() {
                let k = pending[*next];
                let action = if statuses[k].is_some() {
                    SuspendAction::Stop(SuspendTarget::Busy(k))
                } else {
                    SuspendAction::Continue
                };
                (SuspendPhase::ForceStop { pending: p, next: *next + 1 }, action)
            } else {
                (SuspendPhase::StopSupervisors { next: 0 }, SuspendAction::Continue)
            }
        },
        SuspendPhase::StopSupervisors { next } => if *next < plan.supervisors.len() {
            (
                SuspendPhase::StopSupervisors { next: *next + 1 },
                SuspendAction::Stop(SuspendTarget::Supervisor(*next)),
            )
        } else {
            (SuspendPhase::MarkSuspended { next: 0 }, SuspendAction::Continue)
        },
        SuspendPhase::MarkSuspended { next } => if *next < plan.workflow_ids.len() {
            (
                SuspendPhase::MarkSuspended { next: *next + 1 },
                SuspendAction::SetWorkflowStatus { workflow: *next, status: WorkflowStatus::Suspended },
            )
        } else {
            (SuspendPhase::Done, SuspendAction::Finished)
        },
        SuspendPhase::Done => (SuspendPhase::Done, SuspendAction::Finished),
    }
}

/// The worker an action stops or marks Suspended, if any.
pub open spec fn touched(a: SuspendAction) -> Option<SuspendTarget> {
    match a {
        SuspendAction::Stop(t) => Some(t),
        SuspendAction::MarkSuspended { member } => Some(SuspendTarget::Busy(member)),
        _ => None,
    }
}

/// The stage of the suspend an action belongs to: marking Suspending (0),
/// stopping idle members (1), handling busy members (2), stopping
/// supervisors (3), marking Suspended (4).
pub open spec fn action_stage(a: SuspendAction) -> Option<int> {
    match a {
        SuspendAction::SetWorkflowStatus { status: WorkflowStatus::Suspending, .. } => Some(0),
        SuspendAction::Stop(SuspendTarget::Idle(_)) => Some(1),
        SuspendAction::Stop(SuspendTarget::Busy(_)) => Some(2),
        SuspendAction::MarkSuspended { .. } => Some(2),
        SuspendAction::Stop(SuspendTarget::Supervisor(_)) => Some(3),
        SuspendAction::SetWorkflowStatus { status: WorkflowStatus::Suspended, .. } => Some(4),
        _ => None,
    }
}

/// The stage a phase is in (see [`action_stage`]; 5 when done).
pub open spec fn phase_rank(p: PhaseView) -> int {
    match p {
        PhaseView::MarkSuspending { .. } => 0,
        PhaseView::StopIdle { .. } => 1,
        PhaseView::Waiting { .. } => 2,
        PhaseView::Sweep { .. } => 2,
        PhaseView::ForceStop { .. } => 2,
        PhaseView::StopSupervisors { .. } => 3,
        PhaseView::MarkSuspended { .. } => 4,
        PhaseView::Done => 5,
    }
}

/// Whether a suspend in phase `p` may still stop or mark worker `t`.
pub open spec fn can_touch(sz: PlanSizes, p: PhaseView, t: SuspendTarget) -> bool {
    match t {
        SuspendTarget::Idle(k) => k < sz.idle && match p {
            PhaseView::MarkSuspending { .. } => true,
            PhaseView::StopIdle { next } => next <= k,
            _ => false,
        },
        SuspendTarget::Busy(k) => k < sz.busy && match p {
            PhaseView::MarkSuspending { .. } => true,
            PhaseView::StopIdle { .. } => true,
            PhaseView::Waiting { pending } => pending.contains(k),
            PhaseView::Sweep { pending, next, kept } => kept.contains(k) || exists|m: int|
                next <= m < pending.len() && #[trigger] pending[m] == k,
            PhaseView::ForceStop { pending, next } => exists|m: int| next <= m < pending.len() && #[trigger] pending[m] == k,
            _ => false,
        },
        SuspendTarget::Supervisor(k) => k < sz.supervisors && match p {
            PhaseView::StopSupervisors { next } => next <= k,
            PhaseView::MarkSuspended { .. } => false,
            PhaseView::Done => false,
            _ => true,
        },
    }
}

/// One step keeps the phase well formed, never goes back a stage, acts in
/// the stage it is in, stops or marks only a worker it may still touch and
/// then no longer may, and never makes a worker touchable again.
pub proof fn lemma_suspend_step(
    sz: PlanSizes,
    p: PhaseView,
    statuses: Seq<Option<WorkerStatus>>,
    elapsed_ms: u64,
)
    requires
        phase_wf(sz, p),
        sizes_fit(sz),
    ensures
        ({
            let (q, a) = suspend_step_of(sz, p, statuses, elapsed_ms);
            &&& phase_wf(sz, q)
            &&& phase_rank(p) <= phase_rank(q)
            &&& (action_stage(a) matches Some(st) ==> st == phase_rank(p))
            &&& (touched(a) matches Some(t) ==> can_touch(sz, p, t) && !can_touch(sz, q, t))
            &&& forall|t: SuspendTarget| can_touch(sz, q, t) ==> can_touch(sz, p, t)
        }),
{
    let (q, a) = suspend_step_of(sz, p, statuses, elapsed_ms);
    match p {
        PhaseView::StopIdle { next } => {
            if next >= sz.idle {
                let all = all_busy(sz.busy);
                assert forall|a: int, b: int| 0 <= a < b < all.len() implies all[a] < all[b] by {
                    assert(all[a] == a && all[b] == b);
                }
                assert forall|i: int| 0 <= i < all.len() implies #[trigger] all[i] < sz.busy by {
                    assert(all[i] == i);
                }
                assert forall|t: SuspendTarget| can_touch(sz, q, t) implies can_touch(sz, p, t) by {}
                assert(phase_wf(sz, q));
                assert(touched(a) is None);
                assert(action_stage(a) is None);
            } else {
                assert(phase_wf(sz, q));
                assert(touched(a) == Some(SuspendTarget::Idle(next as usize)));
                assert(can_touch(sz, p, SuspendTarget::Idle(next as usize)));
                assert(!can_touch(sz, q, SuspendTarget::Idle(next as usize)));
                assert(action_stage(a) == Some(1int));
                assert forall|t: SuspendTarget| can_touch(sz, q, t) implies can_touch(sz, p, t) by {}
            }
        },
        PhaseView::Waiting { pending } => {
            assert forall|t: SuspendTarget| can_touch(sz, q, t) implies can_touch(sz, p, t) by {
                if let SuspendTarget::Busy(k) = t {
                    let m = choose|m: int| 0 <= m < pending.len() && #[trigger] pending[m] == k;
                    assert(pending[m] == k);
                }
            }
        },
        PhaseView::Sweep { pending, next, kept } => {
            if next < pending.len() {
                let k = pending[next as int];
                assert forall|i: int| 0 <= i < kept.len() implies #[trigger] kept[i] < k by {
                    let m = choose|m: int| 0 <= m < next && pending[m] == kept[i];
                }
                if pending_outcome_of(statuses[k as int]) == PendingOutcome::Wait {
                    let kept2 = kept.push(k);
                    assert forall|i: int| 0 <= i < kept2.len() implies exists|m: int|
                        0 <= m < next + 1 && pending[m] == #[trigger] kept2[i] by {
                        if i < kept.len() {
                            let m = choose|m: int| 0 <= m < next && pending[m] == kept[i];
                            assert(pending[m] == kept2[i]);
                        } else {
                            assert(pending[next as int] == kept2[i]);
                        }
                    }
                    assert forall|t: SuspendTarget| can_touch(sz, q, t) implies can_touch(sz, p, t) by {
                        if let SuspendTarget::Busy(j) = t {
                            if kept2.contains(j) {
                                let i = choose|i: int| 0 <= i < kept2.len() && kept2[i] == j;
                                if i == kept.len() {
                                    assert(pending[next as int] == j);
                                } else {
                                    assert(kept[i] == j);
                                }
                            }
                        }
                    }
                } else {
                    assert(!kept.contains(k)) by {
                        if kept.contains(k) {
                            let i = choose|i: int| 0 <= i < kept.len() && kept[i] == k;
                        }
                    }
                    assert forall|m: int| next + 1 <= m < pending.len() implies #[trigger] pending[m] != k by {}
                }
            } else {
                assert forall|i: int| 0 <= i < kept.len() implies #[trigger] kept[i] < sz.busy by {
                    let m = choose|m: int| 0 <= m < next && pending[m] == kept[i];
                }
            }
        },
        PhaseView::ForceStop { pending, next } => {
            if next < pending.len() {
                let k = pending[next as int];
                assert forall|m: int| next + 1 <= m < pending.len() implies #[trigger] pending[m] != k by {}
            }
        },
        PhaseView::MarkSuspending { next } => {
            assert(phase_wf(sz, q));
        },
        PhaseView::StopSupervisors { next } => {
            assert(phase_wf(sz, q));
        },
        PhaseView::MarkSuspended { next } => {
            assert(phase_wf(sz, q));
        },
        PhaseView::Done => {},
    }
}

} // verus!
