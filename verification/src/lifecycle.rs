//! Lifecycle decisions: suspending every active worker, shutting down,
//! delivering queued messages, waiting for a worker to become ready, and
//! spotting job/worker inconsistencies after a restart.
use vstd::prelude::*;
use vstd::string::*;
use crate::domain::{Job, WorkerRole, WorkerState, WorkerStatus, WorkflowStatus};
use crate::text::{contains_string, has_char, lemma_push_contains, seq_has_char, seq_starts_with, starts_with, views};

verus! {

/// Poll interval while waiting for in-progress members to finish.
pub const SUSPEND_POLL_INTERVAL_MS: u64 = 3000;

/// Maximum time to wait for in-progress members before force-stopping.
pub const SUSPEND_TIMEOUT_MS: u64 = 300000;

/// Interval between readiness polls.
pub const READINESS_POLL_INTERVAL_MS: u64 = 3000;

/// Maximum time to wait for an agent to become ready.
pub const READINESS_TIMEOUT_MS: u64 = 120000;

/// The prompt character an agent shows when it accepts input.
pub const READY_PROMPT: char = '❯';

/// The message that nudges a resumed worker back to its job.
pub const RESUME_NUDGE: &'static str = "[system] Session resumed after suspend. Continue your current task.";

/// A worker to stop: its id and container.
#[derive(Debug, Clone)]
pub struct WorkerRef {
    pub id: String,
    pub container_id: String,
}

/// The plan for suspending every active worker.
#[derive(Debug, Clone)]
pub struct SuspendPlan {
    /// Workflows of the workers being suspended, each once.
    pub workflow_ids: Vec<String>,
    /// Idle or booting members: suspended at once.
    pub immediate: Vec<WorkerRef>,
    /// Working members, or members waiting for a permission: suspended
    /// once they finish.
    pub pending: Vec<String>,
    /// Supervisors: suspended last, so they can still approve prompts.
    pub supervisors: Vec<WorkerRef>,
}

/// Booting, working, idle or waiting for a permission.
pub open spec fn suspendable(s: WorkerStatus) -> bool {
    s is Booting || s is Working || s is Idle || s is WaitingPermission
}

/// The suspendable workers of `ws`, in order.
pub open spec fn suspendable_workers(ws: Seq<WorkerState>) -> Seq<WorkerState> {
    ws.filter(|w: WorkerState| suspendable(w.status))
}

pub open spec fn ref_of(w: WorkerState) -> (Seq<char>, Seq<char>) {
    (w.id@, w.container_id@)
}

pub open spec fn ref_views(v: Seq<WorkerRef>) -> Seq<(Seq<char>, Seq<char>)> {
    v.map_values(|r: WorkerRef| (r.id@, r.container_id@))
}

/// Members to suspend at once.
pub open spec fn immediate_members(ws: Seq<WorkerState>) -> Seq<(Seq<char>, Seq<char>)>
    decreases ws.len(),
{
    if ws.len() == 0 {
        Seq::empty()
    } else {
        let prev = immediate_members(ws.drop_last());
        let w = ws.last();
        if !w.role.supervises() && (w.status is Idle || w.status is Booting) {
            prev.push(ref_of(w))
        } else {
            prev
        }
    }
}

/// Members to wait for.
pub open spec fn pending_members(ws: Seq<WorkerState>) -> Seq<Seq<char>>
    decreases ws.len(),
{
    if ws.len() == 0 {
        Seq::empty()
    } else {
        let prev = pending_members(ws.drop_last());
        let w = ws.last();
        if !w.role.supervises() && (w.status is Working || w.status is WaitingPermission) {
            prev.push(w.id@)
        } else {
            prev
        }
    }
}

/// Suspendable supervisors.
pub open spec fn suspendable_supervisors(ws: Seq<WorkerState>) -> Seq<(Seq<char>, Seq<char>)>
    decreases ws.len(),
{
    if ws.len() == 0 {
        Seq::empty()
    } else {
        let prev = suspendable_supervisors(ws.drop_last());
        let w = ws.last();
        if w.role.supervises() && suspendable(w.status) {
            prev.push(ref_of(w))
        } else {
            prev
        }
    }
}

/// Whether some worker in `ws` can be suspended.
pub open spec fn any_suspendable(ws: Seq<WorkerState>) -> bool {
    exists|i: int| 0 <= i < ws.len() && suspendable(ws[i].status)
}

/// Plan a suspend of `workers`: `None` when none of them can be
/// suspended. Otherwise the workflows of the suspendable workers (each
/// once; exactly those), idle/booting members to stop at once,
/// working/waiting members to wait for, and suspendable supervisors, each
/// list in worker order.
pub fn plan_suspend(workers: &Vec<WorkerState>) -> (r: Option<SuspendPlan>)
    ensures
        !any_suspendable(workers@) ==> r is None,
        any_suspendable(workers@) ==> (r matches Some(p) && {
            &&& ref_views(p.immediate@) == immediate_members(workers@)
            &&& views(p.pending@) == pending_members(workers@)
            &&& ref_views(p.supervisors@) == suspendable_supervisors(workers@)
            &&& forall|a: int, b: int| 0 <= a < b < p.workflow_ids@.len() ==> p.workflow_ids@[a]@ != p.workflow_ids@[b]@
            &&& forall|wf: Seq<char>| views(p.workflow_ids@).contains(wf) <==> exists|i: int|
                0 <= i < workers@.len() && suspendable(workers@[i].status) && #[trigger] workers@[i].workflow_id@ == wf
        }),
{
    let mut workflow_ids: Vec<String> = Vec::new();
    let mut immediate: Vec<WorkerRef> = Vec::new();
    let mut pending: Vec<String> = Vec::new();
    let mut supervisors: Vec<WorkerRef> = Vec::new();
    let mut any = false;
    let mut i: usize = 0;
    while i < workers.len()
        invariant
            i <= workers@.len(),
            any == exists|j: int| 0 <= j < i && suspendable(workers@[j].status),
            ref_views(immediate@) == immediate_members(workers@.take(i as int)),
            views(pending@) == pending_members(workers@.take(i as int)),
            ref_views(supervisors@) == suspendable_supervisors(workers@.take(i as int)),
            forall|a: int, b: int| 0 <= a < b < workflow_ids@.len() ==> workflow_ids@[a]@ != workflow_ids@[b]@,
            forall|wf: Seq<char>| views(workflow_ids@).contains(wf) <==> exists|j: int|
                0 <= j < i && suspendable(workers@[j].status) && #[trigger] workers@[j].workflow_id@ == wf,
        decreases workers@.len() - i,
    {
        let w = &workers[i];
        assert(workers@.take(i + 1).drop_last() =~= workers@.take(i as int));
        assert(workers@.take(i + 1).last() == *w);
        let ghost wf_before = views(workflow_ids@);
        let is_sup = w.role.is_supervisor();
        match w.status {
            WorkerStatus::Booting | WorkerStatus::Working | WorkerStatus::Idle | WorkerStatus::WaitingPermission => {
                any = true;
                if !contains_string(&workflow_ids, w.workflow_id.as_str()) {
                    workflow_ids.push(w.workflow_id.clone());
                    assert(views(workflow_ids@) =~= wf_before.push(w.workflow_id@));
                    proof {
                        lemma_push_contains(wf_before, w.workflow_id@);
                    }
                    assert forall|a: int, b: int| 0 <= a < b < workflow_ids@.len() implies workflow_ids@[a]@
                        != workflow_ids@[b]@ by {
                        if b == workflow_ids@.len() - 1 {
                            assert(wf_before[a] == workflow_ids@[a]@);
                        }
                    }
                    assert forall|wf: Seq<char>| views(workflow_ids@).contains(wf) implies exists|j: int|
                        0 <= j < i + 1 && suspendable(workers@[j].status) && #[trigger] workers@[j].workflow_id@
                        == wf by {
                        let q = choose|q: int| 0 <= q < views(workflow_ids@).len() && views(workflow_ids@)[q] == wf;
                        if q < wf_before.len() {
                            assert(wf_before[q] == wf);
                            assert(wf_before.contains(wf));
                        } else {
                            assert(workers@[i as int].workflow_id@ == wf);
                        }
                    }
                } else {
                    assert forall|wf: Seq<char>| (exists|j: int|
                        0 <= j < i + 1 && suspendable(workers@[j].status) && #[trigger] workers@[j].workflow_id@
                        == wf) implies views(workflow_ids@).contains(wf) by {
                        let j = choose|j: int|
                            0 <= j < i + 1 && suspendable(workers@[j].status) && #[trigger] workers@[j].workflow_id@
                            == wf;
                        if j < i {
                        }
                    }
                }
                if is_sup {
                    supervisors.push(WorkerRef { id: w.id.clone(), container_id: w.container_id.clone() });
                } else {
                    match w.status {
                        WorkerStatus::Idle | WorkerStatus::Booting => {
                            immediate.push(WorkerRef { id: w.id.clone(), container_id: w.container_id.clone() });
                        },
                        _ => {
                            pending.push(w.id.clone());
                        },
                    }
                }
            },
            _ => {},
        }
        assert(ref_views(immediate@) =~= immediate_members(workers@.take(i + 1)));
        assert(views(pending@) =~= pending_members(workers@.take(i + 1)));
        assert(ref_views(supervisors@) =~= suspendable_supervisors(workers@.take(i + 1)));
        i = i + 1;
    }
    assert(workers@.take(workers@.len() as int) =~= workers@);
    if !any {
        return None;
    }
    Some(SuspendPlan { workflow_ids, immediate, pending, supervisors })
}

/// What a suspend does with a member it waits for, given the member's
/// current status (`None`: no longer found).
#[derive(Debug, Clone, Copy, PartialEq, Eq, Structural)]
pub enum PendingOutcome {
    /// Stop waiting for it; nothing to do.
    Drop,
    /// It finished: stop its container and mark it Suspended.
    Suspend,
    /// It crashed: mark it Suspended without recovery.
    MarkSuspended,
    /// Still busy: keep waiting.
    Wait,
}

pub open spec fn pending_outcome_of(status: Option<WorkerStatus>) -> PendingOutcome {
    match status {
        Some(WorkerStatus::Idle) => PendingOutcome::Suspend,
        Some(WorkerStatus::Crashed) => PendingOutcome::MarkSuspended,
        Some(WorkerStatus::Working) | Some(WorkerStatus::WaitingPermission) => PendingOutcome::Wait,
        _ => PendingOutcome::Drop,
    }
}

/// Decide what to do with a member the suspend waits for.
pub fn pending_outcome(status: Option<WorkerStatus>) -> (o: PendingOutcome)
    ensures
        o == pending_outcome_of(status),
{
    match status {
        Some(WorkerStatus::Idle) => PendingOutcome::Suspend,
        Some(WorkerStatus::Crashed) => PendingOutcome::MarkSuspended,
        Some(WorkerStatus::Working) | Some(WorkerStatus::WaitingPermission) => PendingOutcome::Wait,
        _ => PendingOutcome::Drop,
    }
}

/// Whether a suspend keeps waiting after `elapsed_ms` with members still
/// busy.
pub fn suspend_keeps_waiting(pending_count: usize, elapsed_ms: u64) -> (b: bool)
    ensures
        b == (pending_count > 0 && elapsed_ms < SUSPEND_TIMEOUT_MS),
{
    pending_count > 0 && elapsed_ms < SUSPEND_TIMEOUT_MS
}

/// Active and suspending workflows are terminated on shutdown.
pub fn terminated_on_shutdown(status: WorkflowStatus) -> (b: bool)
    ensures
        b == (status is Active || status is Suspending),
{
    match status {
        WorkflowStatus::Active | WorkflowStatus::Suspending => true,
        _ => false,
    }
}

/// How a queued message reaches a worker.
#[derive(Debug, Clone, Copy, PartialEq, Eq, Structural)]
pub enum DeliveryAction {
    /// Not now: the worker is gone, busy, or a member of a suspending
    /// workflow.
    Skip,
    /// The agent is not running: start it afresh, mark the worker Booting
    /// and watch it for readiness.
    Restart,
    /// The agent is not yet accepting input: watch it for readiness.
    Defer,
    /// Hand over the next queued message and mark the worker Working.
    Deliver,
}

pub open spec fn delivery_action_of(
    status: Option<WorkerStatus>,
    role: WorkerRole,
    suspending: bool,
    agent_running: bool,
    pane_ready: bool,
) -> DeliveryAction {
    if status != Some(WorkerStatus::Idle) {
        DeliveryAction::Skip
    } else if !role.supervises() && suspending {
        DeliveryAction::Skip
    } else if !agent_running {
        DeliveryAction::Restart
    } else if !pane_ready {
        DeliveryAction::Defer
    } else {
        DeliveryAction::Deliver
    }
}

/// Decide how to deliver to a worker whose status is `status` (`None`:
/// not found). Only idle workers receive messages; members of a
/// suspending workflow receive none (supervisors still do, so they can
/// approve prompts); an agent that is not running is restarted first, and
/// one whose pane shows no prompt is waited for.
pub fn delivery_action(
    status: Option<WorkerStatus>,
    role: WorkerRole,
    suspending: bool,
    agent_running: bool,
    pane_ready: bool,
) -> (a: DeliveryAction)
    ensures
        a == delivery_action_of(status, role, suspending, agent_running, pane_ready),
{
    match status {
        Some(WorkerStatus::Idle) => {},
        _ => {
            return DeliveryAction::Skip;
        },
    }
    if !role.is_supervisor() && suspending {
        DeliveryAction::Skip
    } else if !agent_running {
        DeliveryAction::Restart
    } else if !pane_ready {
        DeliveryAction::Defer
    } else {
        DeliveryAction::Deliver
    }
}

/// One readiness poll's verdict.
#[derive(Debug, Clone, Copy, PartialEq, Eq, Structural)]
pub enum ReadinessAction {
    /// The worker is gone: stop watching.
    Stop,
    /// The agent accepts input: activate the worker and stop watching.
    Activate,
    /// The agent exited: send a fresh-start command once, keep watching.
    FreshStart,
    /// Keep watching.
    Wait,
}

pub open spec fn readiness_action_of(found: bool, pane_ready: Option<bool>, fallback_sent: bool, agent_running: bool) -> ReadinessAction {
    if !found {
        ReadinessAction::Stop
    } else {
        match pane_ready {
            None => ReadinessAction::Wait,
            Some(true) => ReadinessAction::Activate,
            Some(false) => if !fallback_sent && !agent_running {
                ReadinessAction::FreshStart
            } else {
                ReadinessAction::Wait
            },
        }
    }
}

/// Decide one readiness poll: `pane_ready` is `None` when the pane could
/// not be captured, otherwise whether it shows the prompt.
pub fn readiness_action(found: bool, pane_ready: Option<bool>, fallback_sent: bool, agent_running: bool) -> (a: ReadinessAction)
    ensures
        a == readiness_action_of(found, pane_ready, fallback_sent, agent_running),
{
    if !found {
        return ReadinessAction::Stop;
    }
    match pane_ready {
        None => ReadinessAction::Wait,
        Some(true) => ReadinessAction::Activate,
        Some(false) => if !fallback_sent && !agent_running {
            ReadinessAction::FreshStart
        } else {
            ReadinessAction::Wait
        },
    }
}

/// How many readiness polls fit in the readiness timeout.
pub fn readiness_poll_budget() -> (n: u64)
    ensures
        n == READINESS_TIMEOUT_MS / READINESS_POLL_INTERVAL_MS,
{
    READINESS_TIMEOUT_MS / READINESS_POLL_INTERVAL_MS
}

/// Whether some job in `jobs` is in progress.
pub open spec fn has_in_progress(jobs: Seq<Job>) -> bool {
    exists|i: int| 0 <= i < jobs.len() && jobs[i].status.in_progress()
}

/// Whether a worker whose jobs are `jobs` must be nudged to resume: it
/// holds a job that is in progress.
pub fn needs_resume_nudge(jobs: &Vec<Job>) -> (b: bool)
    ensures
        b == has_in_progress(jobs@),
{
    let mut i: usize = 0;
    while i < jobs.len()
        invariant
            i <= jobs@.len(),
            forall|j: int| 0 <= j < i ==> !jobs@[j].status.in_progress(),
        decreases jobs@.len() - i,
    {
        if jobs[i].status.is_in_progress() {
            return true;
        }
        i = i + 1;
    }
    false
}

/// What the data store said about a job's assignee.
#[derive(Debug, Clone, Copy, PartialEq, Eq, Structural)]
pub enum AssigneeLookup {
    Missing,
    Found(WorkerStatus),
    Failed,
}

/// A job/worker inconsistency found after a restart.
#[derive(Debug, Clone, Copy, PartialEq, Eq, Structural)]
pub enum Inconsistency {
    /// The job is assigned to a worker that does not exist.
    MissingAssignee,
    /// The job is unfinished but its assignee is idle.
    IdleAssignee,
}

pub open spec fn inconsistency_of(job: Job, lookup: AssigneeLookup) -> Option<Inconsistency> {
    if job.status.done() || job.assignee_id is None {
        None
    } else {
        match lookup {
            AssigneeLookup::Missing => Some(Inconsistency::MissingAssignee),
            AssigneeLookup::Found(WorkerStatus::Idle) => Some(Inconsistency::IdleAssignee),
            _ => None,
        }
    }
}

/// Unfinished, assigned jobs whose assignee is missing or idle
/// (`lookups[i]` is what the store said about the assignee of `jobs[i]`;
/// a failed lookup is not counted), as `(job index, kind)` in job order.
pub fn job_worker_inconsistencies(jobs: &Vec<Job>, lookups: &Vec<AssigneeLookup>) -> (r: Vec<(usize, Inconsistency)>)
    requires
        lookups@.len() == jobs@.len(),
    ensures
        forall|k: int| 0 <= k < r@.len() ==> 0 <= #[trigger] r@[k].0 < jobs@.len() && inconsistency_of(
            jobs@[r@[k].0 as int],
            lookups@[r@[k].0 as int],
        ) == Some(r@[k].1),
        forall|k: int, l: int| 0 <= k < l < r@.len() ==> r@[k].0 < r@[l].0,
        forall|i: int| 0 <= i < jobs@.len() && #[trigger] inconsistency_of(jobs@[i], lookups@[i]) is Some ==> exists|k: int|
            0 <= k < r@.len() && r@[k].0 == i,
{
    let mut r: Vec<(usize, Inconsistency)> = Vec::new();
    let mut i: usize = 0;
    while i < jobs.len()
        invariant
            i <= jobs@.len(),
            lookups@.len() == jobs@.len(),
            forall|k: int| 0 <= k < r@.len() ==> 0 <= #[trigger] r@[k].0 < i && inconsistency_of(
                jobs@[r@[k].0 as int],
                lookups@[r@[k].0 as int],
            ) == Some(r@[k].1),
            forall|k: int, l: int| 0 <= k < l < r@.len() ==> r@[k].0 < r@[l].0,
            forall|q: int| 0 <= q < i && #[trigger] inconsistency_of(jobs@[q], lookups@[q]) is Some ==> exists|k: int|
                0 <= k < r@.len() && r@[k].0 == q,
        decreases jobs@.len() - i,
    {
        let job = &jobs[i];
        let found = if job.status.is_done() || job.assignee_id.is_none() {
            None
        } else {
            match lookups[i] {
                AssigneeLookup::Missing => Some(Inconsistency::MissingAssignee),
                AssigneeLookup::Found(WorkerStatus::Idle) => Some(Inconsistency::IdleAssignee),
                _ => None,
            }
        };
        let ghost before = r@;
        if let Some(kind) = found {
            r.push((i, kind));
            assert forall|q: int| 0 <= q < i + 1 && #[trigger] inconsistency_of(jobs@[q], lookups@[q]) is Some
                implies exists|k: int| 0 <= k < r@.len() && r@[k].0 == q by {
                if q < i {
                    let k = choose|k: int| 0 <= k < before.len() && before[k].0 == q;
                    assert(r@[k] == before[k]);
                } else {
                    assert(r@[r@.len() - 1].0 == q);
                }
            }
        }
        i = i + 1;
    }
    r
}

/// Whether a pane shows the agent's input prompt ([`READY_PROMPT`]).
pub fn pane_shows_prompt(content: &str) -> (b: bool)
    ensures
        b == seq_has_char(content@, READY_PROMPT),
{
    has_char(content, READY_PROMPT)
}

/// Whether the id of one container is a prefix of the other's: the
/// runtime lists short ids while worker records hold full ones, and either
/// may be the longer.
pub open spec fn same_container(listed: Seq<char>, recorded: Seq<char>) -> bool {
    seq_starts_with(recorded, listed) || seq_starts_with(listed, recorded)
}

/// Whether container `id` (as the container runtime lists it) belongs to a
/// known worker (see [`same_container`]).
pub open spec fn container_known(id: Seq<char>, known: Seq<Seq<char>>) -> bool {
    exists|k: int| 0 <= k < known.len() && same_container(id, #[trigger] known[k])
}

/// The managed containers that belong to no known worker, in order.
pub open spec fn orphans_of(managed: Seq<Seq<char>>, known: Seq<Seq<char>>) -> Seq<Seq<char>>
    decreases managed.len(),
{
    if managed.len() == 0 {
        Seq::empty()
    } else {
        let prev = orphans_of(managed.drop_last(), known);
        if container_known(managed.last(), known) {
            prev
        } else {
            prev.push(managed.last())
        }
    }
}

/// The managed containers left over from an earlier run: those that no
/// worker record knows (see [`container_known`]), to stop and remove.
pub fn orphan_containers(managed: &Vec<String>, known: &Vec<String>) -> (r: Vec<String>)
    ensures
        views(r@) == orphans_of(views(managed@), views(known@)),
{
    let ghost mv = views(managed@);
    let ghost kv = views(known@);
    let mut r: Vec<String> = Vec::new();
    let mut i: usize = 0;
    while i < managed.len()
        invariant
            i <= managed@.len(),
            mv == views(managed@),
            kv == views(known@),
            views(r@) == orphans_of(mv.take(i as int), kv),
        decreases managed@.len() - i,
    {
        let id = &managed[i];
        let mut found = false;
        let mut k: usize = 0;
        while k < known.len()
            invariant
                k <= known@.len(),
                kv == views(known@),
                found <==> exists|m: int| 0 <= m < k && same_container(id@, #[trigger] kv[m]),
            decreases known@.len() - k,
        {
            if starts_with(known[k].as_str(), id.as_str()) || starts_with(id.as_str(), known[k].as_str()) {
                assert(same_container(id@, kv[k as int]));
                found = true;
            }
            k = k + 1;
        }
        assert(mv.take(i + 1).drop_last() =~= mv.take(i as int));
        assert(mv.take(i + 1).last() == id@);
        if !found {
            let ghost before = views(r@);
            r.push(id.clone());
            assert(views(r@) =~= before.push(id@));
        }
        i = i + 1;
    }
    assert(mv.take(managed@.len() as int) =~= mv);
    r
}

} // verus!
