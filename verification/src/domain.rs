//! The orchestrator's records: workers, jobs, tasks and workflows, held as
//! plain values.
use vstd::prelude::*;
use vstd::string::*;
use crate::text::{decimal, u64_to_decimal};

verus! {

/// Lifecycle state of a worker.
#[derive(Debug, Clone, Copy, PartialEq, Eq, Structural)]
pub enum WorkerStatus {
    Booting,
    Working,
    Idle,
    WaitingPermission,
    Crashed,
    Suspended,
}

/// What a worker does.
#[derive(Debug, Clone, Copy, PartialEq, Eq, Structural)]
pub enum WorkerRole {
    Approver,
    ReviewIntegrator,
    Member,
}

impl WorkerRole {
    pub open spec fn supervises(self) -> bool {
        !(self is Member)
    }

    /// Supervisors are every role but `Member`.
    pub fn is_supervisor(&self) -> (b: bool)
        ensures
            b == self.supervises(),
    {
        match self {
            WorkerRole::Member => false,
            _ => true,
        }
    }
}

/// A worker as the data store records it.
#[derive(Debug, Clone)]
pub struct WorkerState {
    pub id: String,
    pub workflow_id: String,
    pub role: WorkerRole,
    pub supervisor_id: Option<String>,
    pub container_id: String,
    pub terminal_target: String,
    pub status: WorkerStatus,
    pub session_id: Option<String>,
    pub task_id: String,
}

/// Kind of job.
#[derive(Debug, Clone, Copy, PartialEq, Eq, Structural)]
pub enum JobType {
    Craft,
    Review,
    ReviewIntegrate,
    Orchestrator,
    Operator,
}

impl JobType {
    pub open spec fn spawns_worker(self) -> bool {
        self is Craft || self is Review
    }

    /// Only craft and review jobs run in a worker container; the others are
    /// mechanized.
    pub fn needs_worker(&self) -> (b: bool)
        ensures
            b == self.spawns_worker(),
    {
        match self {
            JobType::Craft | JobType::Review => true,
            _ => false,
        }
    }
}

/// A repository a craft job works on.
#[derive(Debug, Clone)]
pub struct Repository {
    /// `owner/name` on GitHub.
    pub name: String,
    /// Branch the job's work lands on.
    pub work_branch: String,
    /// Branch the work branch is created from (the default branch when
    /// absent).
    pub source_branch: Option<String>,
}

/// A pull request under review.
#[derive(Debug, Clone)]
pub struct PullRequest {
    pub owner: String,
    pub repo: String,
    pub number: u64,
}

/// How a pull request is named in messages: `owner/repo#number`.
pub open spec fn pull_request_text(pr: PullRequest) -> Seq<char> {
    pr.owner@ + "/"@ + pr.repo@ + "#"@ + decimal(pr.number as nat)
}

impl PullRequest {
    /// The pull request's name in messages (see [`pull_request_text`]).
    pub fn display(&self) -> (r: String)
        ensures
            r@ == pull_request_text(*self),
    {
        let n = u64_to_decimal(self.number);
        self.owner.clone().concat("/").concat(self.repo.as_str()).concat("#").concat(n.as_str())
    }
}

/// What a review looks at.
#[derive(Debug, Clone)]
pub enum ReviewTarget {
    CraftOutput,
    PullRequest(PullRequest),
}

/// The type-specific part of a job.
#[derive(Debug, Clone)]
pub enum JobDetail {
    Craft { repository: Repository },
    Review { perspective: Option<String>, target: ReviewTarget },
    ReviewIntegrate { target: ReviewTarget },
    Orchestrator { command: Option<String> },
    Operator,
}

impl JobDetail {
    pub open spec fn kind(self) -> JobType {
        match self {
            JobDetail::Craft { .. } => JobType::Craft,
            JobDetail::Review { .. } => JobType::Review,
            JobDetail::ReviewIntegrate { .. } => JobType::ReviewIntegrate,
            JobDetail::Orchestrator { .. } => JobType::Orchestrator,
            JobDetail::Operator => JobType::Operator,
        }
    }

    /// The kind of job this detail belongs to.
    pub fn job_type(&self) -> (t: JobType)
        ensures
            t == self.kind(),
    {
        match self {
            JobDetail::Craft { .. } => JobType::Craft,
            JobDetail::Review { .. } => JobType::Review,
            JobDetail::ReviewIntegrate { .. } => JobType::ReviewIntegrate,
            JobDetail::Orchestrator { .. } => JobType::Orchestrator,
            JobDetail::Operator => JobType::Operator,
        }
    }

    pub open spec fn reviewed_pull_request(self) -> Option<PullRequest> {
        match self {
            JobDetail::Review { target: ReviewTarget::PullRequest(pr), .. } => Some(pr),
            JobDetail::ReviewIntegrate { target: ReviewTarget::PullRequest(pr) } => Some(pr),
            _ => None,
        }
    }

    /// The pull request a review (or review integration) looks at.
    pub fn pull_request(&self) -> (r: Option<&PullRequest>)
        ensures
            match self.reviewed_pull_request() {
                Some(pr) => r == Some(&pr),
                None => r is None,
            },
    {
        match self {
            JobDetail::Review { target: ReviewTarget::PullRequest(pr), .. } => Some(pr),
            JobDetail::ReviewIntegrate { target: ReviewTarget::PullRequest(pr) } => Some(pr),
            _ => None,
        }
    }

    pub open spec fn perspective_name(self) -> Option<String> {
        match self {
            JobDetail::Review { perspective, .. } => perspective,
            _ => None,
        }
    }

    /// The perspective a review job applies.
    pub fn perspective(&self) -> (r: Option<&String>)
        ensures
            match self.perspective_name() {
                Some(p) => r == Some(&p),
                None => r is None,
            },
    {
        match self {
            JobDetail::Review { perspective: Some(p), .. } => Some(p),
            _ => None,
        }
    }
}

/// Progress of a craft job.
#[derive(Debug, Clone, Copy, PartialEq, Eq, Structural)]
pub enum CraftStatus {
    Todo,
    InProgress,
    InReview,
    Done,
}

/// Progress of a review or review-integration job.
#[derive(Debug, Clone, Copy, PartialEq, Eq, Structural)]
pub enum ReviewStatus {
    Todo,
    InProgress,
    ChangesRequested,
    Done,
}

/// Progress of a mechanized (orchestrator or operator) job.
#[derive(Debug, Clone, Copy, PartialEq, Eq, Structural)]
pub enum MechanizedStatus {
    Todo,
    InProgress,
    Done,
    Failed,
}

/// Status of a job, by job kind.
#[derive(Debug, Clone, Copy, PartialEq, Eq, Structural)]
pub enum JobStatus {
    Craft(CraftStatus),
    Review(ReviewStatus),
    ReviewIntegrate(ReviewStatus),
    Orchestrator(MechanizedStatus),
    Operator(MechanizedStatus),
}

impl JobStatus {
    pub open spec fn done(self) -> bool {
        match self {
            JobStatus::Craft(s) => s is Done,
            JobStatus::Review(s) => s is Done,
            JobStatus::ReviewIntegrate(s) => s is Done,
            JobStatus::Orchestrator(s) => s is Done,
            JobStatus::Operator(s) => s is Done,
        }
    }

    pub open spec fn in_progress(self) -> bool {
        match self {
            JobStatus::Craft(s) => s is InProgress,
            JobStatus::Review(s) => s is InProgress,
            JobStatus::ReviewIntegrate(s) => s is InProgress,
            JobStatus::Orchestrator(s) => s is InProgress,
            JobStatus::Operator(s) => s is InProgress,
        }
    }

    /// Whether the job has finished successfully.
    pub fn is_done(&self) -> (b: bool)
        ensures
            b == self.done(),
    {
        match self {
            JobStatus::Craft(CraftStatus::Done)
            | JobStatus::Review(ReviewStatus::Done)
            | JobStatus::ReviewIntegrate(ReviewStatus::Done)
            | JobStatus::Orchestrator(MechanizedStatus::Done)
            | JobStatus::Operator(MechanizedStatus::Done) => true,
            _ => false,
        }
    }

    /// Whether the job is being worked on.
    pub fn is_in_progress(&self) -> (b: bool)
        ensures
            b == self.in_progress(),
    {
        match self {
            JobStatus::Craft(CraftStatus::InProgress)
            | JobStatus::Review(ReviewStatus::InProgress)
            | JobStatus::ReviewIntegrate(ReviewStatus::InProgress)
            | JobStatus::Orchestrator(MechanizedStatus::InProgress)
            | JobStatus::Operator(MechanizedStatus::InProgress) => true,
            _ => false,
        }
    }

    pub open spec fn todo_of(t: JobType) -> JobStatus {
        match t {
            JobType::Craft => JobStatus::Craft(CraftStatus::Todo),
            JobType::Review => JobStatus::Review(ReviewStatus::Todo),
            JobType::ReviewIntegrate => JobStatus::ReviewIntegrate(ReviewStatus::Todo),
            JobType::Orchestrator => JobStatus::Orchestrator(MechanizedStatus::Todo),
            JobType::Operator => JobStatus::Operator(MechanizedStatus::Todo),
        }
    }

    /// The initial status of a job of kind `t`.
    pub fn todo(t: JobType) -> (s: JobStatus)
        ensures
            s == JobStatus::todo_of(t),
    {
        match t {
            JobType::Craft => JobStatus::Craft(CraftStatus::Todo),
            JobType::Review => JobStatus::Review(ReviewStatus::Todo),
            JobType::ReviewIntegrate => JobStatus::ReviewIntegrate(ReviewStatus::Todo),
            JobType::Orchestrator => JobStatus::Orchestrator(MechanizedStatus::Todo),
            JobType::Operator => JobStatus::Operator(MechanizedStatus::Todo),
        }
    }
}

/// A unit of work assigned to a worker (or run mechanically).
#[derive(Debug, Clone)]
pub struct Job {
    pub id: String,
    pub task_id: String,
    pub title: String,
    pub plan_path: Option<String>,
    pub assignee_id: Option<String>,
    pub status: JobStatus,
    pub detail: JobDetail,
}

/// Progress of a task in a workflow's task tree.
#[derive(Debug, Clone, Copy, PartialEq, Eq, Structural)]
pub enum TaskStatus {
    Pending,
    Ready,
    InProgress,
    Completed,
}

/// A node of a workflow's task tree.
#[derive(Debug, Clone)]
pub struct Task {
    pub id: String,
    pub workflow_id: String,
    pub parent_id: Option<String>,
    pub status: TaskStatus,
    /// The kind of job the task creates, if any.
    pub job_type: Option<JobType>,
    pub plan_path: Option<String>,
}

/// Lifecycle state of a workflow.
#[derive(Debug, Clone, Copy, PartialEq, Eq, Structural)]
pub enum WorkflowStatus {
    Active,
    Suspending,
    Suspended,
    Completed,
    Terminated,
}

} // verus!
