//! Walking a workflow's task tree: finding tasks and their jobs, the
//! nearest ancestor with a given kind of job, the job that anchors a
//! review's artifacts, and the supervisor of a job's task.
use vstd::prelude::*;
use vstd::string::*;
use crate::domain::{Job, JobType, Task, WorkerState};
use crate::text::same_text;

verus! {

/// Position of the first task with id `id`.
pub open spec fn task_pos(ts: Seq<Task>, id: Seq<char>) -> Option<int>
    decreases ts.len(),
{
    if ts.len() == 0 {
        None
    } else if ts[0].id@ == id {
        Some(0)
    } else {
        match task_pos(ts.drop_first(), id) {
            Some(i) => Some(i + 1),
            None => None,
        }
    }
}

pub proof fn lemma_task_pos(ts: Seq<Task>, id: Seq<char>)
    ensures
        match task_pos(ts, id) {
            Some(i) => 0 <= i < ts.len() && ts[i].id@ == id && forall|j: int| 0 <= j < i ==> ts[j].id@ != id,
            None => forall|j: int| 0 <= j < ts.len() ==> ts[j].id@ != id,
        },
    decreases ts.len(),
{
    if ts.len() > 0 && ts[0].id@ != id {
        lemma_task_pos(ts.drop_first(), id);
        assert forall|j: int| 1 <= j < ts.len() implies ts[j] == ts.drop_first()[j - 1] by {}
    }
}

/// Position of the first job of task `task_id`.
pub open spec fn job_pos(js: Seq<Job>, task_id: Seq<char>) -> Option<int>
    decreases js.len(),
{
    if js.len() == 0 {
        None
    } else if js[0].task_id@ == task_id {
        Some(0)
    } else {
        match job_pos(js.drop_first(), task_id) {
            Some(i) => Some(i + 1),
            None => None,
        }
    }
}

pub proof fn lemma_job_pos(js: Seq<Job>, task_id: Seq<char>)
    ensures
        match job_pos(js, task_id) {
            Some(i) => 0 <= i < js.len() && js[i].task_id@ == task_id && forall|j: int| 0 <= j < i ==> js[j].task_id@
                != task_id,
            None => forall|j: int| 0 <= j < js.len() ==> js[j].task_id@ != task_id,
        },
    decreases js.len(),
{
    if js.len() > 0 && js[0].task_id@ != task_id {
        lemma_job_pos(js.drop_first(), task_id);
        assert forall|j: int| 1 <= j < js.len() implies js[j] == js.drop_first()[j - 1] by {}
    }
}

/// The task with id `id`.
pub open spec fn task_of(ts: Seq<Task>, id: Seq<char>) -> Option<Task> {
    match task_pos(ts, id) {
        Some(i) => Some(ts[i]),
        None => None,
    }
}

/// The job of task `task_id`.
pub open spec fn job_of(js: Seq<Job>, task_id: Seq<char>) -> Option<Job> {
    match job_pos(js, task_id) {
        Some(i) => Some(js[i]),
        None => None,
    }
}

/// The parent of task `id`, when the task exists and has one.
pub open spec fn parent_of(ts: Seq<Task>, id: Seq<char>) -> Option<Seq<char>> {
    match task_of(ts, id) {
        Some(t) => match t.parent_id {
            Some(p) => Some(p@),
            None => None,
        },
        None => None,
    }
}

/// Find the task with id `id`.
pub fn find_task(ts: &Vec<Task>, id: &str) -> (r: Option<usize>)
    ensures
        match r {
            Some(i) => i < ts@.len() && task_pos(ts@, id@) == Some(i as int),
            None => task_pos(ts@, id@) is None,
        },
{
    proof {
        lemma_task_pos(ts@, id@);
    }
    let mut i: usize = 0;
    while i < ts.len()
        invariant
            i <= ts@.len(),
            forall|j: int| 0 <= j < i ==> ts@[j].id@ != id@,
            match task_pos(ts@, id@) {
                Some(k) => 0 <= k < ts@.len() && ts@[k].id@ == id@ && forall|j: int| 0 <= j < k ==> ts@[j].id@ != id@,
                None => forall|j: int| 0 <= j < ts@.len() ==> ts@[j].id@ != id@,
            },
        decreases ts@.len() - i,
    {
        if same_text(ts[i].id.as_str(), id) {
            return Some(i);
        }
        i = i + 1;
    }
    None
}

/// Find the job of task `task_id`.
pub fn find_job_of_task(js: &Vec<Job>, task_id: &str) -> (r: Option<usize>)
    ensures
        match r {
            Some(i) => i < js@.len() && job_pos(js@, task_id@) == Some(i as int),
            None => job_pos(js@, task_id@) is None,
        },
{
    proof {
        lemma_job_pos(js@, task_id@);
    }
    let mut i: usize = 0;
    while i < js.len()
        invariant
            i <= js@.len(),
            forall|j: int| 0 <= j < i ==> js@[j].task_id@ != task_id@,
            match job_pos(js@, task_id@) {
                Some(k) => 0 <= k < js@.len() && js@[k].task_id@ == task_id@ && forall|j: int| 0 <= j < k
                    ==> js@[j].task_id@ != task_id@,
                None => forall|j: int| 0 <= j < js@.len() ==> js@[j].task_id@ != task_id@,
            },
        decreases js@.len() - i,
    {
        if same_text(js[i].task_id.as_str(), task_id) {
            return Some(i);
        }
        i = i + 1;
    }
    None
}

/// Find the parent of task `id` (see [`parent_of`]).
fn find_parent(ts: &Vec<Task>, id: &str) -> (r: Option<String>)
    ensures
        match parent_of(ts@, id@) {
            Some(p) => r matches Some(x) && x@ == p,
            None => r is None,
        },
{
    match find_task(ts, id) {
        Some(i) => {
            assert(task_of(ts@, id@) == Some(ts@[i as int]));
            match &ts[i].parent_id {
                Some(p) => {
                    let r = p.clone();
                    assert(ts@[i as int].parent_id == Some(*p));
                    Some(r)
                },
                None => None,
            }
        },
        None => None,
    }
}

/// Walking up from task `id` (at most `fuel` steps): the job of the
/// nearest proper ancestor whose job has kind `kind`. The walk ends without
/// a result at the root, at a missing task, or at an ancestor with no job.
pub open spec fn ancestor_job(ts: Seq<Task>, js: Seq<Job>, id: Seq<char>, kind: JobType, fuel: nat) -> Option<Job>
    decreases fuel,
{
    if fuel == 0 {
        None
    } else {
        match parent_of(ts, id) {
            None => None,
            Some(p) => match job_of(js, p) {
                None => None,
                Some(j) => if j.detail.kind() == kind {
                    Some(j)
                } else {
                    ancestor_job(ts, js, p, kind, (fuel - 1) as nat)
                },
            },
        }
    }
}

/// The job of the nearest ancestor of `task_id` whose job has kind `kind`
/// (see [`ancestor_job`]; the walk takes at most one step per task, which
/// reaches every ancestor of an acyclic tree).
pub fn find_ancestor_job(ts: &Vec<Task>, js: &Vec<Job>, task_id: &str, kind: JobType) -> (r: Option<usize>)
    ensures
        match ancestor_job(ts@, js@, task_id@, kind, ts@.len() as nat) {
            Some(j) => r matches Some(i) && i < js@.len() && js@[i as int] == j,
            None => r is None,
        },
{
    let mut current = String::from_str(task_id);
    let mut fuel: usize = ts.len();
    while fuel > 0
        invariant
            ancestor_job(ts@, js@, current@, kind, fuel as nat) == ancestor_job(ts@, js@, task_id@, kind, ts@.len() as nat),
        decreases fuel,
    {
        let parent = match find_parent(ts, current.as_str()) {
            None => {
                return None;
            },
            Some(p) => p,
        };
        let ji = match find_job_of_task(js, parent.as_str()) {
            None => {
                return None;
            },
            Some(i) => i,
        };
        if js[ji].detail.job_type() == kind {
            return Some(ji);
        }
        current = parent;
        fuel = fuel - 1;
    }
    None
}

/// The artifacts anchor of a review task: the nearest craft ancestor's
/// job; failing that, the task's own job when it integrates reviews;
/// failing that, the nearest review-integrating ancestor's job.
pub open spec fn artifact_anchor(ts: Seq<Task>, js: Seq<Job>, id: Seq<char>) -> Option<Job> {
    match ancestor_job(ts, js, id, JobType::Craft, ts.len() as nat) {
        Some(j) => Some(j),
        None => match job_of(js, id) {
            Some(j) if j.detail.kind() == JobType::ReviewIntegrate => Some(j),
            _ => ancestor_job(ts, js, id, JobType::ReviewIntegrate, ts.len() as nat),
        },
    }
}

/// Find the job whose id anchors the artifacts path of task `task_id` (see
/// [`artifact_anchor`]).
pub fn find_artifact_anchor(ts: &Vec<Task>, js: &Vec<Job>, task_id: &str) -> (r: Option<usize>)
    ensures
        match artifact_anchor(ts@, js@, task_id@) {
            Some(j) => r matches Some(i) && i < js@.len() && js@[i as int] == j,
            None => r is None,
        },
{
    if let Some(i) = find_ancestor_job(ts, js, task_id, JobType::Craft) {
        return Some(i);
    }
    if let Some(i) = find_job_of_task(js, task_id) {
        if js[i].detail.job_type() == JobType::ReviewIntegrate {
            return Some(i);
        }
    }
    find_ancestor_job(ts, js, task_id, JobType::ReviewIntegrate)
}

/// Supervisor of a task: the first supervising worker attached to it.
pub open spec fn supervisor_pos(ws: Seq<WorkerState>, task_id: Seq<char>) -> Option<int>
    decreases ws.len(),
{
    if ws.len() == 0 {
        None
    } else if ws[0].role.supervises() && ws[0].task_id@ == task_id {
        Some(0)
    } else {
        match supervisor_pos(ws.drop_first(), task_id) {
            Some(i) => Some(i + 1),
            None => None,
        }
    }
}

pub proof fn lemma_supervisor_pos(ws: Seq<WorkerState>, task_id: Seq<char>)
    ensures
        match supervisor_pos(ws, task_id) {
            Some(i) => 0 <= i < ws.len() && ws[i].role.supervises() && ws[i].task_id@ == task_id,
            None => forall|j: int| 0 <= j < ws.len() ==> !(ws[j].role.supervises() && ws[j].task_id@ == task_id),
        },
    decreases ws.len(),
{
    if ws.len() > 0 && !(ws[0].role.supervises() && ws[0].task_id@ == task_id) {
        lemma_supervisor_pos(ws.drop_first(), task_id);
        assert forall|j: int| 1 <= j < ws.len() implies ws[j] == ws.drop_first()[j - 1] by {}
    }
}

/// How looking for a job's supervisor ends.
pub enum SupervisorSearch {
    /// The supervisor's id.
    Found(Seq<char>),
    /// The walk reached a task that does not exist.
    TaskNotFound(Seq<char>),
    /// No task up to the root has a supervisor.
    NoSupervisor,
}

/// Walking up from task `id` itself (at most `fuel` steps), the first task
/// with a supervisor.
pub open spec fn supervisor_search(ts: Seq<Task>, ws: Seq<WorkerState>, id: Seq<char>, fuel: nat) -> SupervisorSearch
    decreases fuel,
{
    if fuel == 0 {
        SupervisorSearch::NoSupervisor
    } else {
        match supervisor_pos(ws, id) {
            Some(i) => SupervisorSearch::Found(ws[i].id@),
            None => match task_of(ts, id) {
                None => SupervisorSearch::TaskNotFound(id),
                Some(t) => match t.parent_id {
                    None => SupervisorSearch::NoSupervisor,
                    Some(p) => supervisor_search(ts, ws, p@, (fuel - 1) as nat),
                },
            },
        }
    }
}

/// Why no supervisor was found for a job.
#[derive(Debug, Clone)]
pub enum SupervisorError {
    /// The walk reached a task that does not exist.
    TaskNotFound { task_id: String },
    /// No task up to the root has a supervisor.
    NoSupervisor,
}

/// The supervisor of a job's task: the nearest task, starting with the task
/// itself, that has a supervisor (see [`supervisor_search`]).
pub fn find_supervisor_for_job(ts: &Vec<Task>, workers: &Vec<WorkerState>, task_id: &str) -> (r: Result<String, SupervisorError>)
    ensures
        match supervisor_search(ts@, workers@, task_id@, ts@.len() as nat + 1) {
            SupervisorSearch::Found(s) => r matches Ok(x) && x@ == s,
            SupervisorSearch::TaskNotFound(t) => r matches Err(SupervisorError::TaskNotFound { task_id }) && task_id@ == t,
            SupervisorSearch::NoSupervisor => r matches Err(SupervisorError::NoSupervisor),
        },
{
    let mut current = String::from_str(task_id);
    let mut fuel: usize = ts.len();
    loop
        invariant
            supervisor_search(ts@, workers@, current@, fuel as nat + 1) == supervisor_search(
                ts@,
                workers@,
                task_id@,
                ts@.len() as nat + 1,
            ),
        decreases fuel,
    {
        proof {
            lemma_supervisor_pos(workers@, current@);
        }
        let mut k: usize = 0;
        while k < workers.len()
            invariant
                k <= workers@.len(),
                supervisor_search(ts@, workers@, current@, fuel as nat + 1) == supervisor_search(
                    ts@,
                    workers@,
                    task_id@,
                    ts@.len() as nat + 1,
                ),
                forall|j: int| 0 <= j < k ==> !(workers@[j].role.supervises() && workers@[j].task_id@ == current@),
                match supervisor_pos(workers@, current@) {
                    Some(i) => 0 <= i < workers@.len() && workers@[i].role.supervises() && workers@[i].task_id@ == current@,
                    None => forall|j: int| 0 <= j < workers@.len() ==> !(workers@[j].role.supervises() && workers@[j].task_id@
                        == current@),
                },
            decreases workers@.len() - k,
        {
            if workers[k].role.is_supervisor() && same_text(workers[k].task_id.as_str(), current.as_str()) {
                proof {
                    lemma_supervisor_first(workers@, current@, k as int);
                }
                assert(supervisor_search(ts@, workers@, current@, fuel as nat + 1) == SupervisorSearch::Found(
                    workers@[k as int].id@,
                ));
                return Ok(workers[k].id.clone());
            }
            k = k + 1;
        }
        let ti = match find_task(ts, current.as_str()) {
            None => {
                return Err(SupervisorError::TaskNotFound { task_id: current });
            },
            Some(i) => i,
        };
        let parent = match &ts[ti].parent_id {
            None => {
                return Err(SupervisorError::NoSupervisor);
            },
            Some(p) => p.clone(),
        };
        assert(supervisor_search(ts@, workers@, current@, fuel as nat + 1) == supervisor_search(
            ts@,
            workers@,
            parent@,
            fuel as nat,
        ));
        if fuel == 0 {
            assert(supervisor_search(ts@, workers@, parent@, 0) == SupervisorSearch::NoSupervisor);
            return Err(SupervisorError::NoSupervisor);
        }
        current = parent;
        fuel = fuel - 1;
    }
}

proof fn lemma_supervisor_first(ws: Seq<WorkerState>, task_id: Seq<char>, k: int)
    requires
        0 <= k < ws.len(),
        ws[k].role.supervises() && ws[k].task_id@ == task_id,
        forall|j: int| 0 <= j < k ==> !(ws[j].role.supervises() && ws[j].task_id@ == task_id),
    ensures
        supervisor_pos(ws, task_id) == Some(k),
    decreases k,
{
    if k > 0 {
        assert forall|j: int| 0 <= j < k - 1 implies !(ws.drop_first()[j].role.supervises() && ws.drop_first()[j].task_id@
            == task_id) by {
            assert(ws.drop_first()[j] == ws[j + 1]);
        }
        lemma_supervisor_first(ws.drop_first(), task_id, k - 1);
    }
}

} // verus!
