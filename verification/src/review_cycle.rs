//! The review cycle of a craft job: which reviews are done, which restart,
//! what an approval or a request for changes does to the craft job, and
//! which review workers still owe their review.md.
use vstd::prelude::*;
use vstd::string::*;
use crate::domain::{CraftStatus, Job, JobStatus, JobType, ReviewStatus, Task};
use crate::review::{missing_review_instruction, missing_review_message, Verdict};
use crate::task_rules::is_child;
use crate::tasks::{find_job_of_task, find_task, job_of, job_pos, parent_of};
use crate::text::same_text;

verus! {

/// Which children of a task a walk collects the jobs of.
#[derive(Debug, Clone, Copy, PartialEq, Eq, Structural)]
pub enum ChildJobs {
    /// Review children that have a job.
    Reviews,
    /// Children whose job is a review that requested changes.
    AwaitingRestart,
}

pub open spec fn selects(sel: ChildJobs, t: Task, js: Seq<Job>) -> bool {
    match sel {
        ChildJobs::Reviews => t.job_type == Some(JobType::Review) && job_pos(js, t.id@) is Some,
        ChildJobs::AwaitingRestart => match job_of(js, t.id@) {
            Some(j) => j.status == JobStatus::Review(ReviewStatus::ChangesRequested),
            None => false,
        },
    }
}

/// Positions in `js` of the jobs of the children of `parent` that `sel`
/// selects, in the children's order.
pub open spec fn child_jobs(ts: Seq<Task>, js: Seq<Job>, parent: Seq<char>, sel: ChildJobs) -> Seq<int>
    decreases ts.len(),
{
    if ts.len() == 0 {
        Seq::empty()
    } else {
        let prev = child_jobs(ts.drop_last(), js, parent, sel);
        if is_child(ts.last(), parent) && selects(sel, ts.last(), js) {
            prev.push(job_pos(js, ts.last().id@).unwrap())
        } else {
            prev
        }
    }
}

fn selected(sel: ChildJobs, t: &Task, js: &Vec<Job>) -> (r: Option<usize>)
    ensures
        selects(sel, *t, js@) ==> (r matches Some(k) && job_pos(js@, t.id@) == Some(k as int) && k < js@.len()),
        !selects(sel, *t, js@) ==> r is None,
{
    let k = match find_job_of_task(js, t.id.as_str()) {
        Some(k) => k,
        None => {
            return None;
        },
    };
    match sel {
        ChildJobs::Reviews => if t.job_type == Some(JobType::Review) {
            Some(k)
        } else {
            None
        },
        ChildJobs::AwaitingRestart => if js[k].status == JobStatus::Review(ReviewStatus::ChangesRequested) {
            Some(k)
        } else {
            None
        },
    }
}

fn child_of(t: &Task, parent: &str) -> (b: bool)
    ensures
        b == is_child(*t, parent@),
{
    match &t.parent_id {
        Some(p) => same_text(p.as_str(), parent),
        None => false,
    }
}

/// The jobs of the children of `parent` that `sel` selects (see
/// [`child_jobs`]).
pub fn find_child_jobs(ts: &Vec<Task>, js: &Vec<Job>, parent: &str, sel: ChildJobs) -> (r: Vec<usize>)
    ensures
        r@.map_values(|k: usize| k as int) == child_jobs(ts@, js@, parent@, sel),
        forall|i: int| 0 <= i < r@.len() ==> #[trigger] r@[i] < js@.len(),
{
    let mut r: Vec<usize> = Vec::new();
    let mut i: usize = 0;
    while i < ts.len()
        invariant
            i <= ts@.len(),
            r@.map_values(|k: usize| k as int) == child_jobs(ts@.take(i as int), js@, parent@, sel),
            forall|m: int| 0 <= m < r@.len() ==> #[trigger] r@[m] < js@.len(),
        decreases ts@.len() - i,
    {
        assert(ts@.take(i + 1).drop_last() =~= ts@.take(i as int));
        assert(ts@.take(i + 1).last() == ts@[i as int]);
        if child_of(&ts[i], parent) {
            match selected(sel, &ts[i], js) {
                Some(k) => {
                    r.push(k);
                },
                None => {},
            }
        }
        assert(r@.map_values(|k: usize| k as int) =~= child_jobs(ts@.take(i + 1), js@, parent@, sel));
        i = i + 1;
    }
    assert(ts@.take(ts@.len() as int) =~= ts@);
    r
}

/// Every review child of `parent` has a job, and that job is done.
pub open spec fn all_reviews_done(ts: Seq<Task>, js: Seq<Job>, parent: Seq<char>) -> bool {
    forall|i: int|
        0 <= i < ts.len() && is_child(ts[i], parent) && ts[i].job_type == Some(JobType::Review) ==> match job_of(
            js,
            #[trigger] ts[i].id@,
        ) {
            Some(j) => j.status.done(),
            None => false,
        }
}

/// Whether every review child of `parent` is done (see [`all_reviews_done`]).
pub fn reviews_done(ts: &Vec<Task>, js: &Vec<Job>, parent: &str) -> (b: bool)
    ensures
        b == all_reviews_done(ts@, js@, parent@),
{
    let mut i: usize = 0;
    while i < ts.len()
        invariant
            i <= ts@.len(),
            forall|m: int|
                0 <= m < i && is_child(ts@[m], parent@) && ts@[m].job_type == Some(JobType::Review) ==> match job_of(
                    js@,
                    #[trigger] ts@[m].id@,
                ) {
                    Some(j) => j.status.done(),
                    None => false,
                },
        decreases ts@.len() - i,
    {
        let t = &ts[i];
        if child_of(t, parent) && t.job_type == Some(JobType::Review) {
            match find_job_of_task(js, t.id.as_str()) {
                Some(k) => {
                    if !js[k].status.is_done() {
                        return false;
                    }
                },
                None => {
                    return false;
                },
            }
        }
        i = i + 1;
    }
    true
}

/// The craft job a review of task `review_task_id` reviews while it is
/// `InReview`: the job of the review task's parent.
pub open spec fn craft_in_review(ts: Seq<Task>, js: Seq<Job>, review_task_id: Seq<char>) -> Option<Job> {
    match parent_of(ts, review_task_id) {
        Some(p) => match job_of(js, p) {
            Some(j) => if j.status == JobStatus::Craft(CraftStatus::InReview) {
                Some(j)
            } else {
                None
            },
            None => None,
        },
        None => None,
    }
}

fn find_craft_in_review(ts: &Vec<Task>, js: &Vec<Job>, review_task_id: &str) -> (r: Option<usize>)
    ensures
        match craft_in_review(ts@, js@, review_task_id@) {
            Some(j) => r matches Some(k) && k < js@.len() && js@[k as int] == j && parent_of(ts@, review_task_id@)
                == Some(js@[k as int].task_id@),
            None => r is None,
        },
{
    let t = match find_task(ts, review_task_id) {
        Some(t) => t,
        None => {
            return None;
        },
    };
    let parent = match &ts[t].parent_id {
        Some(p) => p,
        None => {
            return None;
        },
    };
    match find_job_of_task(js, parent.as_str()) {
        Some(k) => {
            proof {
                crate::tasks::lemma_job_pos(js@, parent@);
            }
            if js[k].status == JobStatus::Craft(CraftStatus::InReview) {
                Some(k)
            } else {
                None
            }
        },
        None => None,
    }
}

/// The craft job that an approval of a review of task `review_task_id`
/// completes: the parent's craft job while it is `InReview` and once every
/// review child of the parent is done; it becomes `Done`, its crafter is
/// released and its task may complete.
pub fn craft_completed_by_approval(ts: &Vec<Task>, js: &Vec<Job>, review_task_id: &str) -> (r: Option<usize>)
    ensures
        match craft_in_review(ts@, js@, review_task_id@) {
            Some(j) => if all_reviews_done(ts@, js@, parent_of(ts@, review_task_id@).unwrap()) {
                r matches Some(k) && k < js@.len() && js@[k as int] == j
            } else {
                r is None
            },
            None => r is None,
        },
{
    let k = match find_craft_in_review(ts, js, review_task_id) {
        Some(k) => k,
        None => {
            return None;
        },
    };
    if reviews_done(ts, js, js[k].task_id.as_str()) {
        Some(k)
    } else {
        None
    }
}

/// The craft job that a request for changes on a review of task
/// `review_task_id` sends back to work: the parent's craft job while it is
/// `InReview`; it becomes `InProgress` and its crafter is reactivated with
/// the review's feedback.
pub fn craft_reverted_by_changes(ts: &Vec<Task>, js: &Vec<Job>, review_task_id: &str) -> (r: Option<usize>)
    ensures
        match craft_in_review(ts@, js@, review_task_id@) {
            Some(j) => r matches Some(k) && k < js@.len() && js@[k as int] == j,
            None => r is None,
        },
{
    find_craft_in_review(ts, js, review_task_id)
}

/// The status a job returns to when its member is reactivated: a craft job
/// goes back to `InProgress` (changes requested), a review to
/// `InProgress` (re-review); other jobs have no member to reactivate.
pub open spec fn reactivated_status_of(t: JobType) -> Option<JobStatus> {
    match t {
        JobType::Craft => Some(JobStatus::Craft(CraftStatus::InProgress)),
        JobType::Review => Some(JobStatus::Review(ReviewStatus::InProgress)),
        _ => None,
    }
}

/// The status a reactivated job takes (see [`reactivated_status_of`]).
pub fn reactivated_status(t: JobType) -> (r: Option<JobStatus>)
    ensures
        r == reactivated_status_of(t),
{
    match t {
        JobType::Craft => Some(JobStatus::Craft(CraftStatus::InProgress)),
        JobType::Review => Some(JobStatus::Review(ReviewStatus::InProgress)),
        _ => None,
    }
}

/// What the check of review worker artifacts found.
#[derive(Debug, Clone)]
pub struct ArtifactCheck {
    /// Every review worker's review.md is present.
    pub all_present: bool,
    /// For each review worker with a missing review.md and an assignee: the
    /// assignee and the re-instruction to queue for it.
    pub reinstructions: Vec<(String, String)>,
}

pub open spec fn reinstructions_of(js: Seq<Job>, reviews: Seq<int>, present: Seq<bool>, round: u32) -> Seq<(Seq<char>, Seq<char>)>
    decreases reviews.len(),
{
    if reviews.len() == 0 {
        Seq::empty()
    } else {
        let n = (reviews.len() - 1) as int;
        let prev = reinstructions_of(js, reviews.take(n), present.take(n), round);
        let j = js[reviews[n]];
        if !present[n] && j.assignee_id is Some {
            prev.push((j.assignee_id.unwrap()@, missing_review_message(round, j.id@)))
        } else {
            prev
        }
    }
}

pub open spec fn pair_views(v: Seq<(String, String)>) -> Seq<(Seq<char>, Seq<char>)> {
    v.map_values(|p: (String, String)| (p.0@, p.1@))
}

/// Judge the review workers' artifacts of one round: with no round directory
/// yet, nothing is owed; otherwise every review worker (`reviews`, positions in
/// `js`) must have written its review.md (`present`, in the same order),
/// and each one that has not, and has an assignee, is re-instructed.
pub fn check_review_artifacts(
    js: &Vec<Job>,
    reviews: &Vec<usize>,
    present: &Vec<bool>,
    round_dir_exists: bool,
    round: u32,
) -> (r: ArtifactCheck)
    requires
        reviews@.len() == present@.len(),
        forall|i: int| 0 <= i < reviews@.len() ==> #[trigger] reviews@[i] < js@.len(),
    ensures
        !round_dir_exists ==> r.all_present && r.reinstructions@.len() == 0,
        round_dir_exists ==> (r.all_present <==> forall|i: int| 0 <= i < present@.len() ==> #[trigger] present@[i]),
        round_dir_exists ==> pair_views(r.reinstructions@) == reinstructions_of(
            js@,
            reviews@.map_values(|k: usize| k as int),
            present@,
            round,
        ),
{
    let mut out: Vec<(String, String)> = Vec::new();
    if !round_dir_exists {
        return ArtifactCheck { all_present: true, reinstructions: out };
    }
    let ghost rv = reviews@.map_values(|k: usize| k as int);
    let mut all_present = true;
    let mut i: usize = 0;
    while i < reviews.len()
        invariant
            i <= reviews@.len(),
            reviews@.len() == present@.len(),
            rv == reviews@.map_values(|k: usize| k as int),
            forall|m: int| 0 <= m < reviews@.len() ==> #[trigger] reviews@[m] < js@.len(),
            all_present <==> forall|m: int| 0 <= m < i ==> #[trigger] present@[m],
            pair_views(out@) == reinstructions_of(js@, rv.take(i as int), present@.take(i as int), round),
        decreases reviews@.len() - i,
    {
        assert(rv.take(i + 1).take(i as int) =~= rv.take(i as int));
        assert(present@.take(i + 1).take(i as int) =~= present@.take(i as int));
        let j = &js[reviews[i]];
        if !present[i] {
            all_present = false;
            match &j.assignee_id {
                Some(a) => {
                    let msg = missing_review_instruction(round, j.id.as_str());
                    out.push((a.clone(), msg));
                },
                None => {},
            }
        }
        assert(pair_views(out@) =~= reinstructions_of(js@, rv.take(i + 1), present@.take(i + 1), round));
        i = i + 1;
    }
    assert(rv.take(reviews@.len() as int) =~= rv);
    assert(present@.take(present@.len() as int) =~= present@);
    ArtifactCheck { all_present, reinstructions: out }
}

/// What happens to a submitted review.
#[derive(Debug, Clone, Copy, PartialEq, Eq, Structural)]
pub enum SubmissionStep {
    /// An integrator submitted while review workers' artifacts are missing: the
    /// submission waits.
    Blocked,
    /// The job has no submission to act on.
    NoSubmission,
    /// The review job takes `status`; an approval releases its member;
    /// then the verdict cascades.
    Apply { verdict: Verdict, status: JobStatus, release_member: bool },
}

pub open spec fn submission_step_of(is_integrator: bool, artifacts_present: bool, latest: Option<Verdict>) -> SubmissionStep {
    if is_integrator && !artifacts_present {
        SubmissionStep::Blocked
    } else {
        match latest {
            None => SubmissionStep::NoSubmission,
            Some(Verdict::ChangesRequested) => SubmissionStep::Apply {
                verdict: Verdict::ChangesRequested,
                status: JobStatus::Review(ReviewStatus::ChangesRequested),
                release_member: false,
            },
            Some(Verdict::Approved) => SubmissionStep::Apply {
                verdict: Verdict::Approved,
                status: JobStatus::Review(ReviewStatus::Done),
                release_member: true,
            },
        }
    }
}

/// Decide what a review submission does: an integrator's waits until every
/// review worker's artifact is present (`artifacts_present`); then the latest
/// submission's verdict (`latest`) sets the review job to
/// `ChangesRequested` or, approved, to `Done` and releases its member.
pub fn submission_step(is_integrator: bool, artifacts_present: bool, latest: Option<Verdict>) -> (s: SubmissionStep)
    ensures
        s == submission_step_of(is_integrator, artifacts_present, latest),
{
    if is_integrator && !artifacts_present {
        return SubmissionStep::Blocked;
    }
    match latest {
        None => SubmissionStep::NoSubmission,
        Some(Verdict::ChangesRequested) => SubmissionStep::Apply {
            verdict: Verdict::ChangesRequested,
            status: JobStatus::Review(ReviewStatus::ChangesRequested),
            release_member: false,
        },
        Some(Verdict::Approved) => SubmissionStep::Apply {
            verdict: Verdict::Approved,
            status: JobStatus::Review(ReviewStatus::Done),
            release_member: true,
        },
    }
}

/// What a job's new status sets off.
#[derive(Debug, Clone, Copy, PartialEq, Eq, Structural)]
pub struct StatusReactions {
    /// A craft job went `InReview`: its review tasks activate (and reviews
    /// that asked for changes restart).
    pub activate_reviews: bool,
    /// A review asked for changes: its craft job goes back to work.
    pub revert_parent_craft: bool,
    /// A review is done: its craft job may be done too.
    pub complete_parent_craft: bool,
    /// The job is done: its task may complete.
    pub complete_task: bool,
}

/// Decide what a job's change to `new_status` sets off.
pub fn status_reactions(new_status: JobStatus) -> (r: StatusReactions)
    ensures
        r.activate_reviews == (new_status == JobStatus::Craft(CraftStatus::InReview)),
        r.revert_parent_craft == (new_status == JobStatus::Review(ReviewStatus::ChangesRequested)),
        r.complete_parent_craft == (new_status == JobStatus::Review(ReviewStatus::Done)),
        r.complete_task == new_status.done(),
{
    StatusReactions {
        activate_reviews: new_status == JobStatus::Craft(CraftStatus::InReview),
        revert_parent_craft: new_status == JobStatus::Review(ReviewStatus::ChangesRequested),
        complete_parent_craft: new_status == JobStatus::Review(ReviewStatus::Done),
        complete_task: new_status.is_done(),
    }
}

} // verus!
