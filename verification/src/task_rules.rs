//! Rules of the task tree: when a task completes, what happens to a
//! composite task whose children are done, how a ready task activates, and
//! which craft sibling an orchestrator task checks.
use vstd::prelude::*;
use vstd::string::*;
use crate::domain::{Job, JobStatus, JobType, Task, TaskStatus};
use crate::tasks::{find_job_of_task, find_task, job_of, job_pos, parent_of, task_of};
use crate::text::same_text;

verus! {

/// Whether task `t` is a child of `parent`.
pub open spec fn is_child(t: Task, parent: Seq<char>) -> bool {
    t.parent_id matches Some(p) && p@ == parent
}

/// Positions of the children of `parent`, in order.
pub open spec fn children(ts: Seq<Task>, parent: Seq<char>) -> Seq<int>
    decreases ts.len(),
{
    if ts.len() == 0 {
        Seq::empty()
    } else {
        let prev = children(ts.drop_last(), parent);
        if is_child(ts.last(), parent) {
            prev.push(ts.len() - 1)
        } else {
            prev
        }
    }
}

fn is_child_of(t: &Task, parent: &str) -> (b: bool)
    ensures
        b == is_child(*t, parent@),
{
    match &t.parent_id {
        Some(p) => same_text(p.as_str(), parent),
        None => false,
    }
}

/// The positions of the children of `parent`.
pub fn child_tasks(ts: &Vec<Task>, parent: &str) -> (r: Vec<usize>)
    ensures
        r@.map_values(|i: usize| i as int) == children(ts@, parent@),
        forall|k: int| 0 <= k < r@.len() ==> #[trigger] r@[k] < ts@.len(),
{
    let mut r: Vec<usize> = Vec::new();
    let mut i: usize = 0;
    while i < ts.len()
        invariant
            i <= ts@.len(),
            r@.map_values(|i: usize| i as int) == children(ts@.take(i as int), parent@),
            forall|k: int| 0 <= k < r@.len() ==> #[trigger] r@[k] < i,
        decreases ts@.len() - i,
    {
        assert(ts@.take(i + 1).drop_last() =~= ts@.take(i as int));
        if is_child_of(&ts[i], parent) {
            r.push(i);
        }
        assert(r@.map_values(|i: usize| i as int) =~= children(ts@.take(i + 1), parent@));
        i = i + 1;
    }
    assert(ts@.take(ts@.len() as int) =~= ts@);
    r
}

/// Every child of task `task_id` has completed (true when it has none).
pub open spec fn children_completed(ts: Seq<Task>, task_id: Seq<char>) -> bool {
    forall|i: int| 0 <= i < ts.len() && is_child(ts[i], task_id) ==> ts[i].status == TaskStatus::Completed
}

/// A task completes when its own job is done and every child has
/// completed.
pub open spec fn completes(ts: Seq<Task>, task_id: Seq<char>, job_status: JobStatus) -> bool {
    job_status.done() && children_completed(ts, task_id)
}

/// Whether task `task_id`, whose job has status `job_status`, may be marked
/// Completed (see [`completes`]).
pub fn task_completes(ts: &Vec<Task>, task_id: &str, job_status: JobStatus) -> (b: bool)
    ensures
        b == completes(ts@, task_id@, job_status),
{
    if !job_status.is_done() {
        return false;
    }
    let mut i: usize = 0;
    while i < ts.len()
        invariant
            i <= ts@.len(),
            forall|j: int| 0 <= j < i && is_child(ts@[j], task_id@) ==> ts@[j].status == TaskStatus::Completed,
        decreases ts@.len() - i,
    {
        if is_child_of(&ts[i], task_id) && ts[i].status != TaskStatus::Completed {
            return false;
        }
        i = i + 1;
    }
    true
}

/// What happens to a composite task whose children have all completed.
#[derive(Debug, Clone, Copy, PartialEq, Eq, Structural)]
pub enum ParentCompletion {
    /// Its own job is not done and it integrates reviews: spawn the
    /// review integrator.
    SpawnReviewIntegrator,
    /// Its own job is not done: wait for it.
    Defer,
    /// Complete it; `workflow_done` when it is the root task.
    Complete { workflow_done: bool },
}

pub open spec fn parent_completion_of(ts: Seq<Task>, js: Seq<Job>, task_id: Seq<char>) -> ParentCompletion {
    let own_done = match job_of(js, task_id) {
        Some(j) => j.status.done(),
        None => true,
    };
    if !own_done {
        match task_of(ts, task_id) {
            Some(t) if t.job_type == Some(JobType::ReviewIntegrate) => ParentCompletion::SpawnReviewIntegrator,
            _ => ParentCompletion::Defer,
        }
    } else {
        ParentCompletion::Complete {
            workflow_done: match task_of(ts, task_id) {
                Some(t) => t.parent_id is None,
                None => false,
            },
        }
    }
}

/// Decide what happens to composite task `task_id` once its children are
/// all complete: it completes when its own job (if any) is done, and the
/// workflow completes with its root; otherwise it waits, spawning the
/// review integrator when it integrates reviews.
pub fn parent_completion(ts: &Vec<Task>, js: &Vec<Job>, task_id: &str) -> (r: ParentCompletion)
    ensures
        r == parent_completion_of(ts@, js@, task_id@),
{
    let own_done = match find_job_of_task(js, task_id) {
        Some(i) => js[i].status.is_done(),
        None => true,
    };
    let task = find_task(ts, task_id);
    if !own_done {
        match task {
            Some(i) => if ts[i].job_type == Some(JobType::ReviewIntegrate) {
                ParentCompletion::SpawnReviewIntegrator
            } else {
                ParentCompletion::Defer
            },
            None => ParentCompletion::Defer,
        }
    } else {
        let workflow_done = match task {
            Some(i) => ts[i].parent_id.is_none(),
            None => false,
        };
        ParentCompletion::Complete { workflow_done }
    }
}

/// How a ready task with children activates.
#[derive(Debug, Clone, Copy, PartialEq, Eq, Structural)]
pub enum CompositeActivation {
    /// No job of its own: spawn an approver and go on to the children.
    SpawnApprover,
    /// Create its job and assign a member; go on to the children only when
    /// `resolve_children`.
    CreateAndAssign { resolve_children: bool },
    /// Create its job without assigning anyone (the review integrator comes
    /// when the children are done); go on to the children.
    CreateOnly,
}

pub open spec fn composite_activation_of(job_type: Option<JobType>) -> CompositeActivation {
    match job_type {
        None => CompositeActivation::SpawnApprover,
        Some(JobType::Craft) => CompositeActivation::CreateAndAssign { resolve_children: false },
        Some(JobType::ReviewIntegrate) => CompositeActivation::CreateOnly,
        Some(_) => CompositeActivation::CreateAndAssign { resolve_children: true },
    }
}

/// Decide how a ready composite task activates: craft composites start
/// their crafter and leave the reviews for later; review-integration
/// composites create their job without a member; others create and assign
/// their job; with no job, an approver supervises the children.
pub fn composite_activation(task: &Task) -> (r: CompositeActivation)
    ensures
        r == composite_activation_of(task.job_type),
{
    match task.job_type {
        None => CompositeActivation::SpawnApprover,
        Some(JobType::Craft) => CompositeActivation::CreateAndAssign { resolve_children: false },
        Some(JobType::ReviewIntegrate) => CompositeActivation::CreateOnly,
        Some(_) => CompositeActivation::CreateAndAssign { resolve_children: true },
    }
}

/// How a ready leaf task activates.
#[derive(Debug, Clone)]
pub enum LeafActivation {
    /// No such task, or no job to create.
    Nothing,
    /// Create and assign its job with this plan path.
    CreateJob { plan_path: Option<String> },
}

/// The plan path of a leaf task's job: its own, or, for a review task
/// without one, its parent's.
pub open spec fn leaf_plan_path(ts: Seq<Task>, t: Task) -> Option<String> {
    if t.job_type == Some(JobType::Review) && t.plan_path is None && t.parent_id is Some {
        match task_of(ts, t.parent_id.unwrap()@) {
            Some(p) => p.plan_path,
            None => t.plan_path,
        }
    } else {
        t.plan_path
    }
}

/// Decide how ready leaf task `task_id` activates (see [`leaf_plan_path`]).
pub fn leaf_activation(ts: &Vec<Task>, task_id: &str) -> (r: LeafActivation)
    ensures
        match task_of(ts@, task_id@) {
            Some(t) if t.job_type is Some => r matches LeafActivation::CreateJob { plan_path } && plan_path == leaf_plan_path(
                ts@,
                t,
            ),
            _ => r matches LeafActivation::Nothing,
        },
{
    let i = match find_task(ts, task_id) {
        Some(i) => i,
        None => {
            return LeafActivation::Nothing;
        },
    };
    let t = &ts[i];
    if t.job_type.is_none() {
        return LeafActivation::Nothing;
    }
    if t.job_type == Some(JobType::Review) && t.plan_path.is_none() {
        if let Some(pid) = &t.parent_id {
            match find_task(ts, pid.as_str()) {
                Some(p) => {
                    return LeafActivation::CreateJob { plan_path: ts[p].plan_path.clone() };
                },
                None => {},
            }
        }
    }
    LeafActivation::CreateJob { plan_path: t.plan_path.clone() }
}

/// Whether task `t` is a craft child of `parent`; with `need_job`, one
/// whose job exists among `js`.
pub open spec fn craft_candidate(t: Task, parent: Seq<char>, js: Seq<Job>, need_job: bool) -> bool {
    &&& is_child(t, parent)
    &&& t.job_type == Some(JobType::Craft)
    &&& (need_job ==> job_pos(js, t.id@) is Some)
}

/// Position of the first craft child of `parent` (see [`craft_candidate`]).
pub open spec fn first_craft_child(ts: Seq<Task>, parent: Seq<char>, js: Seq<Job>, need_job: bool) -> Option<int>
    decreases ts.len(),
{
    if ts.len() == 0 {
        None
    } else if craft_candidate(ts[0], parent, js, need_job) {
        Some(0)
    } else {
        match first_craft_child(ts.drop_first(), parent, js, need_job) {
            Some(i) => Some(i + 1),
            None => None,
        }
    }
}

pub proof fn lemma_first_craft_child(ts: Seq<Task>, parent: Seq<char>, js: Seq<Job>, need_job: bool)
    ensures
        match first_craft_child(ts, parent, js, need_job) {
            Some(i) => 0 <= i < ts.len() && craft_candidate(ts[i], parent, js, need_job) && forall|j: int|
                0 <= j < i ==> !craft_candidate(#[trigger] ts[j], parent, js, need_job),
            None => forall|j: int| 0 <= j < ts.len() ==> !craft_candidate(#[trigger] ts[j], parent, js, need_job),
        },
    decreases ts.len(),
{
    if ts.len() > 0 && !craft_candidate(ts[0], parent, js, need_job) {
        lemma_first_craft_child(ts.drop_first(), parent, js, need_job);
        assert forall|j: int| 1 <= j < ts.len() implies ts[j] == ts.drop_first()[j - 1] by {}
    }
}

/// The job of the craft sibling of task `task_id`: the first craft child
/// of its parent (with `need_job`, the first one that has a job).
pub open spec fn craft_sibling_job(ts: Seq<Task>, js: Seq<Job>, task_id: Seq<char>, need_job: bool) -> Option<Job> {
    match parent_of(ts, task_id) {
        Some(p) => match first_craft_child(ts, p, js, need_job) {
            Some(i) => job_of(js, ts[i].id@),
            None => None,
        },
        None => None,
    }
}

fn find_first_craft_child(ts: &Vec<Task>, parent: &str, js: &Vec<Job>, need_job: bool) -> (r: Option<usize>)
    ensures
        match r {
            Some(i) => i < ts@.len() && first_craft_child(ts@, parent@, js@, need_job) == Some(i as int),
            None => first_craft_child(ts@, parent@, js@, need_job) is None,
        },
{
    proof {
        lemma_first_craft_child(ts@, parent@, js@, need_job);
    }
    let mut i: usize = 0;
    while i < ts.len()
        invariant
            i <= ts@.len(),
            forall|j: int| 0 <= j < i ==> !craft_candidate(#[trigger] ts@[j], parent@, js@, need_job),
            match first_craft_child(ts@, parent@, js@, need_job) {
                Some(k) => 0 <= k < ts@.len() && craft_candidate(ts@[k], parent@, js@, need_job) && forall|j: int|
                    0 <= j < k ==> !craft_candidate(#[trigger] ts@[j], parent@, js@, need_job),
                None => forall|j: int| 0 <= j < ts@.len() ==> !craft_candidate(#[trigger] ts@[j], parent@, js@, need_job),
            },
        decreases ts@.len() - i,
    {
        let t = &ts[i];
        if is_child_of(t, parent) && t.job_type == Some(JobType::Craft) {
            let has_job = if need_job {
                find_job_of_task(js, t.id.as_str()).is_some()
            } else {
                true
            };
            if has_job {
                assert(craft_candidate(ts@[i as int], parent@, js@, need_job));
                return Some(i);
            }
        }
        i = i + 1;
    }
    None
}

fn find_craft_sibling(ts: &Vec<Task>, js: &Vec<Job>, task_id: &str, need_job: bool) -> (r: Option<usize>)
    ensures
        match craft_sibling_job(ts@, js@, task_id@, need_job) {
            Some(j) => r matches Some(k) && k < js@.len() && js@[k as int] == j,
            None => r is None,
        },
{
    let parent = match find_task(ts, task_id) {
        Some(i) => match &ts[i].parent_id {
            Some(p) => p.clone(),
            None => {
                return None;
            },
        },
        None => {
            return None;
        },
    };
    let c = match find_first_craft_child(ts, parent.as_str(), js, need_job) {
        Some(c) => c,
        None => {
            return None;
        },
    };
    match find_job_of_task(js, ts[c].id.as_str()) {
        Some(k) => Some(k),
        None => None,
    }
}

/// The job whose workspace runs an orchestrator task's command and whose
/// artifacts hold its check result: that of the craft sibling of task
/// `task_id` (see [`craft_sibling_job`]); `None` when the first craft
/// sibling has no job.
pub fn find_craft_sibling_job(ts: &Vec<Task>, js: &Vec<Job>, task_id: &str) -> (r: Option<usize>)
    ensures
        match craft_sibling_job(ts@, js@, task_id@, false) {
            Some(j) => r matches Some(k) && k < js@.len() && js@[k as int] == j,
            None => r is None,
        },
{
    find_craft_sibling(ts, js, task_id, false)
}

/// The craft job that a failed check sends back to work: that of the
/// first craft sibling of task `task_id` that has a job.
pub fn find_craft_job_to_revert(ts: &Vec<Task>, js: &Vec<Job>, task_id: &str) -> (r: Option<usize>)
    ensures
        match craft_sibling_job(ts@, js@, task_id@, true) {
            Some(j) => r matches Some(k) && k < js@.len() && js@[k as int] == j,
            None => r is None,
        },
{
    find_craft_sibling(ts, js, task_id, true)
}

} // verus!
