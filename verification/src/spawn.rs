//! Assigning a job to a new member: whether it may happen now, what runs
//! without a member, which workspace and artifacts the member mounts,
//! which perspective directories, and how its container is prepared.
use vstd::prelude::*;
use vstd::string::*;
use crate::domain::{Job, JobDetail, JobType, PullRequest, Repository, ReviewTarget, Task, WorkerRole};
use crate::job_instruction::PERSPECTIVE_MOUNT;
use crate::perspectives::{lookup_base, pair_views, path_views, PathView, ValidatedPerspectives};
use crate::tasks::{
    ancestor_job, artifact_anchor, find_ancestor_job, find_artifact_anchor, find_job_of_task, find_task, job_of, parent_of,
};
use crate::text::{assoc, same_text};
use crate::workspace::{pull_request_repository, ASSUMED_DEFAULT_BRANCH};

verus! {

/// Whether a job may get a member now.
#[derive(Debug, Clone, Copy, PartialEq, Eq, Structural)]
pub enum AssignmentGate {
    /// Its workflow is suspending: no new members.
    Suspending,
    /// As many workers are active as the limit allows: the job waits.
    AtCapacity,
    /// The job runs without a member (orchestrator or operator job).
    Mechanized,
    /// Spawn a member for it.
    SpawnMember,
}

pub open spec fn assignment_gate_of(suspending: bool, active: usize, max_workers: usize, t: JobType) -> AssignmentGate {
    if suspending {
        AssignmentGate::Suspending
    } else if active >= max_workers {
        AssignmentGate::AtCapacity
    } else if !t.spawns_worker() {
        AssignmentGate::Mechanized
    } else {
        AssignmentGate::SpawnMember
    }
}

/// Decide whether an assignable job of kind `t` gets a member now: not
/// while its workflow suspends, not while `active` workers fill the
/// `max_workers` slots, and not at all when it is mechanized.
pub fn assignment_gate(suspending: bool, active: usize, max_workers: usize, t: JobType) -> (g: AssignmentGate)
    ensures
        g == assignment_gate_of(suspending, active, max_workers, t),
{
    if suspending {
        AssignmentGate::Suspending
    } else if active >= max_workers {
        AssignmentGate::AtCapacity
    } else if !t.needs_worker() {
        AssignmentGate::Mechanized
    } else {
        AssignmentGate::SpawnMember
    }
}

/// What a mechanized job does when it is assigned.
#[derive(Debug, Clone)]
pub enum MechanizedAction {
    /// Run the orchestrator task's shell command (the job goes
    /// `InProgress`).
    RunCommand { command: String },
    /// An orchestrator task without a command: nothing can run.
    MissingCommand,
    /// An operator task waits for a human (the job goes `InProgress`).
    AwaitOperator,
    /// Not a mechanized job.
    Nothing,
}

/// Decide what an assigned mechanized job does.
pub fn mechanized_action(detail: &JobDetail) -> (a: MechanizedAction)
    ensures
        match detail {
            JobDetail::Orchestrator { command: Some(c) } => a matches MechanizedAction::RunCommand { command } && command@
                == c@,
            JobDetail::Orchestrator { command: None } => a is MissingCommand,
            JobDetail::Operator => a is AwaitOperator,
            _ => a is Nothing,
        },
{
    match detail {
        JobDetail::Orchestrator { command: Some(c) } => MechanizedAction::RunCommand { command: c.clone() },
        JobDetail::Orchestrator { command: None } => MechanizedAction::MissingCommand,
        JobDetail::Operator => MechanizedAction::AwaitOperator,
        _ => MechanizedAction::Nothing,
    }
}

/// The workspace a new member mounts.
#[derive(Debug, Clone)]
pub enum WorkspacePlan {
    /// No workspace.
    NoWorkspace,
    /// A workspace of its own, cloned for the job from `repository`.
    Clone { repository: Repository, read_only: bool },
    /// The workspace of the craft job at position `craft_job`, shared
    /// read-only.
    ShareCraft { craft_job: usize },
}

fn copy_repository(r: &Repository) -> (c: Repository)
    ensures
        c == *r,
{
    let source_branch = match &r.source_branch {
        Some(b) => Some(b.clone()),
        None => None,
    };
    Repository { name: r.name.clone(), work_branch: r.work_branch.clone(), source_branch }
}

/// Decide the workspace of a member for `job`: a craft job clones its
/// repository read-write; a pull-request review clones the pull request's
/// repository read-only; a review of craft output shares the nearest craft
/// ancestor's workspace read-only (none when there is no such ancestor);
/// other jobs have none.
pub fn workspace_plan(ts: &Vec<Task>, js: &Vec<Job>, job: &Job) -> (p: WorkspacePlan)
    ensures
        match job.detail {
            JobDetail::Craft { repository } => p matches WorkspacePlan::Clone { repository: r, read_only } && r == repository
                && !read_only,
            JobDetail::Review { target: ReviewTarget::PullRequest(pr), .. } => p matches WorkspacePlan::Clone {
                repository: r,
                read_only,
            } && read_only && r.name@ == pr.owner@ + "/"@ + pr.repo@ && r.work_branch@ == ASSUMED_DEFAULT_BRANCH@
                && r.source_branch is None,
            JobDetail::Review { target: ReviewTarget::CraftOutput, .. } => match ancestor_job(
                ts@,
                js@,
                job.task_id@,
                JobType::Craft,
                ts@.len() as nat,
            ) {
                Some(j) => p matches WorkspacePlan::ShareCraft { craft_job } && craft_job < js@.len() && js@[craft_job as int]
                    == j,
                None => p is NoWorkspace,
            },
            _ => p is NoWorkspace,
        },
{
    match &job.detail {
        JobDetail::Craft { repository } => WorkspacePlan::Clone { repository: copy_repository(repository), read_only: false },
        JobDetail::Review { target: ReviewTarget::PullRequest(pr), .. } => WorkspacePlan::Clone {
            repository: pull_request_repository(pr),
            read_only: true,
        },
        JobDetail::Review { target: ReviewTarget::CraftOutput, .. } => match find_ancestor_job(
            ts,
            js,
            job.task_id.as_str(),
            JobType::Craft,
        ) {
            Some(k) => WorkspacePlan::ShareCraft { craft_job: k },
            None => WorkspacePlan::NoWorkspace,
        },
        _ => WorkspacePlan::NoWorkspace,
    }
}

/// The job whose workspace a job's member is attached to, for reading its
/// plan again on reactivation: a craft job's own, a pull-request review's
/// own, a craft-output review's nearest craft ancestor's; none otherwise.
pub fn workspace_owner(ts: &Vec<Task>, js: &Vec<Job>, job: &Job) -> (r: Option<String>)
    ensures
        match job.detail {
            JobDetail::Craft { .. } | JobDetail::Review { target: ReviewTarget::PullRequest(_), .. } => r matches Some(
                id,
            ) && id@ == job.id@,
            JobDetail::Review { target: ReviewTarget::CraftOutput, .. } => match ancestor_job(
                ts@,
                js@,
                job.task_id@,
                JobType::Craft,
                ts@.len() as nat,
            ) {
                Some(j) => r matches Some(id) && id@ == j.id@,
                None => r is None,
            },
            _ => r is None,
        },
{
    match &job.detail {
        JobDetail::Craft { .. } | JobDetail::Review { target: ReviewTarget::PullRequest(_), .. } => Some(
            job.id.clone(),
        ),
        JobDetail::Review { target: ReviewTarget::CraftOutput, .. } => match find_ancestor_job(
            ts,
            js,
            job.task_id.as_str(),
            JobType::Craft,
        ) {
            Some(k) => Some(js[k].id.clone()),
            None => None,
        },
        _ => None,
    }
}

/// The artifacts directory a new member mounts.
#[derive(Debug, Clone)]
pub struct ArtifactsPlan {
    /// Id of the job that anchors the artifacts directory.
    pub anchor_job_id: String,
    /// Crafters only read their reviews; review workers write theirs.
    pub read_only: bool,
    /// Review workers get their round's directory made in advance.
    pub precreate_review_dir: bool,
}

/// Decide the artifacts mount of a member for `job`: a crafter mounts its
/// own job's directory read-only; a review worker mounts its artifact anchor's
/// directory read-write, with its own review directory made in advance
/// (none without an anchor); other jobs mount none.
pub fn artifacts_plan(ts: &Vec<Task>, js: &Vec<Job>, job: &Job) -> (p: Option<ArtifactsPlan>)
    ensures
        match job.detail.kind() {
            JobType::Craft => p matches Some(a) && a.anchor_job_id@ == job.id@ && a.read_only && !a.precreate_review_dir,
            JobType::Review => match artifact_anchor(ts@, js@, job.task_id@) {
                Some(j) => p matches Some(a) && a.anchor_job_id@ == j.id@ && !a.read_only && a.precreate_review_dir,
                None => p is None,
            },
            _ => p is None,
        },
{
    match job.detail.job_type() {
        JobType::Craft => Some(
            ArtifactsPlan { anchor_job_id: job.id.clone(), read_only: true, precreate_review_dir: false },
        ),
        JobType::Review => match find_artifact_anchor(ts, js, job.task_id.as_str()) {
            Some(k) => Some(
                ArtifactsPlan { anchor_job_id: js[k].id.clone(), read_only: false, precreate_review_dir: true },
            ),
            None => None,
        },
        _ => None,
    }
}

/// A perspective directory mounted into a review worker's container.
#[derive(Debug, Clone)]
pub struct PerspectiveMount {
    pub host_path: String,
    pub container_path: String,
}

/// Whether an earlier path than the last one uses the last one's directory.
pub open spec fn dir_seen_before(paths: Seq<PathView>) -> bool {
    exists|i: int| 0 <= i < paths.len() - 1 && #[trigger] paths[i].dir_name == paths.last().dir_name
}

/// The mounts for a perspective's paths: each directory the paths use,
/// once, in the order it is first used, when it is a configured base
/// directory: the base directory on the host, and
/// `/home/agent/perspective/<dir_name>` in the container.
pub open spec fn mounts_for(paths: Seq<PathView>, dirs: Seq<(Seq<char>, Seq<char>)>) -> Seq<(Seq<char>, Seq<char>)>
    decreases paths.len(),
{
    if paths.len() == 0 {
        Seq::empty()
    } else {
        let prev = mounts_for(paths.drop_last(), dirs);
        let d = paths.last().dir_name;
        if !dir_seen_before(paths) && assoc(dirs, d) is Some {
            prev.push((assoc(dirs, d).unwrap(), PERSPECTIVE_MOUNT@ + "/"@ + d))
        } else {
            prev
        }
    }
}

pub open spec fn mount_views(v: Seq<PerspectiveMount>) -> Seq<(Seq<char>, Seq<char>)> {
    v.map_values(|m: PerspectiveMount| (m.host_path@, m.container_path@))
}

/// The perspective directories to mount for a job: none unless it is a
/// review with a perspective that is configured; otherwise the mounts for
/// that perspective's paths (see [`mounts_for`]).
pub fn perspective_mounts(ps: &ValidatedPerspectives, detail: &JobDetail) -> (r: Vec<PerspectiveMount>)
    ensures
        match detail.perspective_name() {
            Some(name) => match crate::perspectives::first_named(ps@.perspectives, name@) {
                Some(i) => mount_views(r@) == mounts_for(ps@.perspectives[i].paths, ps@.dirs),
                None => r@.len() == 0,
            },
            None => r@.len() == 0,
        },
{
    let mut r: Vec<PerspectiveMount> = Vec::new();
    let name = match detail.perspective() {
        Some(n) => n,
        None => {
            return r;
        },
    };
    let p = match ps.find(name.as_str()) {
        Some(p) => p,
        None => {
            return r;
        },
    };
    let ghost pv = path_views(p.paths@);
    proof {
        let ix = crate::perspectives::first_named(ps@.perspectives, name@).unwrap();
        crate::perspectives::lemma_first_named(ps@.perspectives, name@);
        assert(ps@.perspectives[ix] == ps.perspectives@[ix]@);
    }
    proof {
        reveal_strlit("/");
    }
    let mut i: usize = 0;
    while i < p.paths.len()
        invariant
            i <= p.paths@.len(),
            pv == path_views(p.paths@),
            mount_views(r@) == mounts_for(pv.take(i as int), ps@.dirs),
            ps@.dirs == pair_views(ps.dirs@),
        decreases p.paths@.len() - i,
    {
        let ghost pre = pv.take(i + 1);
        assert(pre.drop_last() =~= pv.take(i as int));
        assert(pre.last() == pv[i as int]);
        let d = &p.paths[i].dir_name;
        let mut seen = false;
        let mut k: usize = 0;
        while k < i
            invariant
                k <= i,
                i < p.paths@.len(),
                pv == path_views(p.paths@),
                pre == pv.take(i + 1),
                d@ == pv[i as int].dir_name,
                seen <==> exists|m: int| 0 <= m < k && #[trigger] pre[m].dir_name == pre.last().dir_name,
            decreases i - k,
        {
            if same_text(p.paths[k].dir_name.as_str(), d.as_str()) {
                assert(pre[k as int].dir_name == pre.last().dir_name);
                seen = true;
            }
            k = k + 1;
        }
        assert(seen == dir_seen_before(pre));
        if !seen {
            match lookup_base(&ps.dirs, d.as_str()) {
                Some(host) => {
                    let container = String::from_str(PERSPECTIVE_MOUNT).concat("/").concat(d.as_str());
                    r.push(PerspectiveMount { host_path: host, container_path: container });
                },
                None => {},
            }
        }
        assert(mount_views(r@) =~= mounts_for(pre, ps@.dirs));
        i = i + 1;
    }
    assert(pv.take(p.paths@.len() as int) =~= pv);
    r
}

/// The prompt a member is started with.
#[derive(Debug, Clone, Copy, PartialEq, Eq, Structural)]
pub enum MemberPrompt {
    Crafter,
    Review,
}

/// Where a member's prompt is copied inside its container.
pub const PROMPT_PATH: &'static str = "/home/agent/prompt.md";

/// Where a member works when it has a workspace.
pub const WORKSPACE_MOUNT_DIR: &'static str = "/home/agent/workspace";

/// How a member's container is prepared.
#[derive(Debug, Clone)]
pub struct MemberSetup {
    /// Review workers only read the plan directory; crafters may write it.
    pub plan_dir_read_only: bool,
    pub prompt: MemberPrompt,
    /// The directory the agent starts in: the workspace when it has one.
    pub workdir: Option<String>,
}

/// Decide how the container of a member for a job of kind `t` is prepared:
/// a crafter gets the crafter prompt and a writable plan directory, a
/// review worker the review worker prompt and a read-only one; the agent starts in
/// the workspace when there is one. Only craft and review jobs have
/// members.
pub fn member_setup(t: JobType, has_workspace: bool) -> (s: MemberSetup)
    requires
        t.spawns_worker(),
    ensures
        s.plan_dir_read_only == (t == JobType::Review),
        s.prompt == (if t == JobType::Craft {
            MemberPrompt::Crafter
        } else {
            MemberPrompt::Review
        }),
        has_workspace ==> (s.workdir matches Some(w) && w@ == WORKSPACE_MOUNT_DIR@),
        !has_workspace ==> s.workdir is None,
{
    let prompt = match t {
        JobType::Craft => MemberPrompt::Crafter,
        _ => MemberPrompt::Review,
    };
    let workdir = if has_workspace {
        Some(String::from_str(WORKSPACE_MOUNT_DIR))
    } else {
        None
    };
    MemberSetup { plan_dir_read_only: t == JobType::Review, prompt, workdir }
}

/// The kind of supervisor a composite task gets.
#[derive(Debug, Clone, Copy, PartialEq, Eq, Structural)]
pub enum SupervisorKind {
    Approver,
    ReviewIntegrator,
}

/// How a supervisor's container is prepared.
#[derive(Debug, Clone, Copy, PartialEq, Eq, Structural)]
pub struct SupervisorSetup {
    /// Which image and prompt it runs.
    pub kind: SupervisorKind,
    /// A review integrator mounts the reviews' artifacts (read-write) and
    /// is given its job's instruction once registered.
    pub integrates_reviews: bool,
}

/// Why no supervisor can be spawned.
#[derive(Debug, Clone, Copy, PartialEq, Eq, Structural)]
pub enum SupervisorSpawnError {
    /// Members are not supervisors.
    MemberRole,
}

impl SupervisorSpawnError {
    /// The description of the error.
    pub fn message(&self) -> (r: String)
        ensures
            r@ == "cannot spawn a supervisor with Member role"@,
    {
        String::from_str("cannot spawn a supervisor with Member role")
    }
}

/// Decide how a supervisor with `role` is prepared: approvers and review
/// integrators run their own image and prompt, and only review integrators
/// mount artifacts and get an instruction; a member role is refused.
pub fn supervisor_setup(role: WorkerRole) -> (r: Result<SupervisorSetup, SupervisorSpawnError>)
    ensures
        match role {
            WorkerRole::Approver => r == Ok::<SupervisorSetup, SupervisorSpawnError>(
                SupervisorSetup { kind: SupervisorKind::Approver, integrates_reviews: false },
            ),
            WorkerRole::ReviewIntegrator => r == Ok::<SupervisorSetup, SupervisorSpawnError>(
                SupervisorSetup { kind: SupervisorKind::ReviewIntegrator, integrates_reviews: true },
            ),
            WorkerRole::Member => r == Err::<SupervisorSetup, SupervisorSpawnError>(SupervisorSpawnError::MemberRole),
        },
{
    match role {
        WorkerRole::Approver => Ok(SupervisorSetup { kind: SupervisorKind::Approver, integrates_reviews: false }),
        WorkerRole::ReviewIntegrator => Ok(
            SupervisorSetup { kind: SupervisorKind::ReviewIntegrator, integrates_reviews: true },
        ),
        WorkerRole::Member => Err(SupervisorSpawnError::MemberRole),
    }
}

/// The job that anchors a review integrator's artifacts: the job of the
/// parent of its review-composite task `task_id`.
pub fn supervisor_artifacts_anchor(ts: &Vec<Task>, js: &Vec<Job>, task_id: &str) -> (r: Option<usize>)
    ensures
        match parent_of(ts@, task_id@) {
            Some(p) => match job_of(js@, p) {
                Some(j) => r matches Some(k) && k < js@.len() && js@[k as int] == j,
                None => r is None,
            },
            None => r is None,
        },
{
    let t = match find_task(ts, task_id) {
        Some(t) => t,
        None => {
            return None;
        },
    };
    match &ts[t].parent_id {
        Some(p) => match find_job_of_task(js, p.as_str()) {
            Some(k) => Some(k),
            None => None,
        },
        None => None,
    }
}

/// The job whose workspace is removed when a member working on task
/// `task_id` is destroyed: the task's job, when it is a craft job; no
/// other job's workspace is removed then.
pub fn workspace_released_with_member(js: &Vec<Job>, task_id: &str) -> (r: Option<usize>)
    ensures
        match job_of(js@, task_id@) {
            Some(j) => if j.detail.kind() == JobType::Craft {
                r matches Some(k) && k < js@.len() && js@[k as int] == j
            } else {
                r is None
            },
            None => r is None,
        },
{
    match find_job_of_task(js, task_id) {
        Some(k) => if js[k].detail.job_type() == JobType::Craft {
            Some(k)
        } else {
            None
        },
        None => None,
    }
}

} // verus!
