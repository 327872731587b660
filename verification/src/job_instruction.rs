//! The instruction message that tells a member what job to work on.
use vstd::prelude::*;
use vstd::string::*;
use crate::domain::{Job, JobDetail, pull_request_text};
use crate::perspectives::{PathView, PerspectivePath, ValidatedPerspectives, first_named, lemma_first_named, path_views, perspective_views};
use crate::plan_location::{PlanLocation, container_plan_path_of};
use crate::text::{decimal, u64_to_decimal};

verus! {

/// Container-side mount point for artifacts.
pub const ARTIFACTS_MOUNT: &'static str = "/home/agent/artifacts";

/// Container-side mount point for perspective documents.
pub const PERSPECTIVE_MOUNT: &'static str = "/home/agent/perspective";

/// Numbered `@`-prefixed lines, one per perspective document.
pub open spec fn priority_lines(paths: Seq<PathView>) -> Seq<char>
    decreases paths.len(),
{
    if paths.len() == 0 {
        Seq::empty()
    } else {
        priority_lines(paths.drop_last()) + decimal(paths.len()) + ". @"@ + PERSPECTIVE_MOUNT@ + "/"@
            + paths.last().dir_name + "/"@ + paths.last().relative_path + "\n"@
    }
}

pub open spec fn plan_section(job: Job, loc: PlanLocation) -> Seq<char> {
    match job.plan_path {
        Some(p) => "Plan: "@ + container_plan_path_of(loc, p@) + "\n"@,
        None => Seq::empty(),
    }
}

pub open spec fn repository_section(job: Job) -> Seq<char> {
    match job.detail {
        JobDetail::Craft { repository } => "\nRepository: "@ + repository.name@ + " (branch: "@
            + repository.work_branch@ + ")\n"@,
        _ => Seq::empty(),
    }
}

pub open spec fn pull_request_section(job: Job) -> Seq<char> {
    match job.detail.reviewed_pull_request() {
        Some(pr) => "\nPull Request: "@ + pull_request_text(pr)
            + "\nWorkspace: /home/agent/workspace (read-only checkout of PR branch)\n"@,
        None => Seq::empty(),
    }
}

pub open spec fn round_section(job: Job, round: Option<u32>) -> Seq<char> {
    match round {
        Some(n) => if job.detail is ReviewIntegrate {
            "\nRound: "@ + decimal(n as nat) + "\nArtifacts: "@ + ARTIFACTS_MOUNT@ + "/round-"@ + decimal(
                n as nat,
            ) + "/\n"@
        } else {
            "\nRound: "@ + decimal(n as nat) + "\nArtifacts: "@ + ARTIFACTS_MOUNT@ + "/round-"@ + decimal(
                n as nat,
            ) + "/"@ + job.id@ + "/\n"@
        },
        None => Seq::empty(),
    }
}

pub open spec fn perspective_section(job: Job, ps: ValidatedPerspectives) -> Seq<char> {
    match job.detail.perspective_name() {
        Some(name) => {
            let pvs = perspective_views(ps.perspectives@);
            "\nPerspective: "@ + name@ + "\n"@ + "Perspective Documents: "@ + PERSPECTIVE_MOUNT@ + "/\n"@
                + match first_named(pvs, name@) {
                Some(i) => "Perspective Priority Paths:\n"@ + priority_lines(pvs[i].paths),
                None => Seq::empty(),
            }
        },
        None => Seq::empty(),
    }
}

/// The instruction for `job`: heading and ID, then the plan path (as the
/// container sees it), the repository, the pull request, the review round
/// with its artifacts directory, and the perspective documents, each when it
/// applies, and a closing request to begin.
pub open spec fn instruction_text(job: Job, round: Option<u32>, ps: ValidatedPerspectives, loc: PlanLocation) -> Seq<char> {
    "## Task: "@ + job.title@ + "\n\nID: "@ + job.id@ + "\n"@ + plan_section(job, loc) + repository_section(job)
        + pull_request_section(job) + round_section(job, round) + perspective_section(job, ps)
        + "\nPlease begin working on this"@ + " task."@
}

fn append_plan(msg: &mut String, job: &Job, plan_loc: &PlanLocation)
    ensures
        final(msg)@ == old(msg)@ + plan_section(*job, *plan_loc),
{
    if let Some(plan_path) = &job.plan_path {
        let p = plan_loc.container_plan_path(plan_path.as_str());
        msg.append("Plan: ");
        msg.append(p.as_str());
        msg.append("\n");
    }
    assert(msg@ =~= old(msg)@ + plan_section(*job, *plan_loc));
}

fn append_repository(msg: &mut String, job: &Job)
    ensures
        final(msg)@ == old(msg)@ + repository_section(*job),
{
    if let JobDetail::Craft { repository } = &job.detail {
        msg.append("\nRepository: ");
        msg.append(repository.name.as_str());
        msg.append(" (branch: ");
        msg.append(repository.work_branch.as_str());
        msg.append(")\n");
    }
    assert(msg@ =~= old(msg)@ + repository_section(*job));
}

fn append_pull_request(msg: &mut String, job: &Job)
    ensures
        final(msg)@ == old(msg)@ + pull_request_section(*job),
{
    if let Some(pr) = job.detail.pull_request() {
        let t = pr.display();
        msg.append("\nPull Request: ");
        msg.append(t.as_str());
        msg.append("\nWorkspace: /home/agent/workspace (read-only checkout of PR branch)\n");
    }
    assert(msg@ =~= old(msg)@ + pull_request_section(*job));
}

fn append_round(msg: &mut String, job: &Job, round: Option<u32>)
    ensures
        final(msg)@ == old(msg)@ + round_section(*job, round),
{
    if let Some(n) = round {
        let d = u64_to_decimal(n as u64);
        msg.append("\nRound: ");
        msg.append(d.as_str());
        msg.append("\nArtifacts: ");
        msg.append(ARTIFACTS_MOUNT);
        msg.append("/round-");
        msg.append(d.as_str());
        if let JobDetail::ReviewIntegrate { .. } = &job.detail {
            msg.append("/\n");
        } else {
            msg.append("/");
            msg.append(job.id.as_str());
            msg.append("/\n");
        }
    }
    assert(msg@ =~= old(msg)@ + round_section(*job, round));
}

fn append_priority_paths(msg: &mut String, paths: &Vec<PerspectivePath>)
    ensures
        final(msg)@ == old(msg)@ + priority_lines(path_views(paths@)),
{
    let ghost base = msg@;
    let ghost pv = path_views(paths@);
    let mut i: usize = 0;
    while i < paths.len()
        invariant
            i <= paths@.len(),
            pv == path_views(paths@),
            msg@ == base + priority_lines(pv.take(i as int)),
        decreases paths@.len() - i,
    {
        let path = &paths[i];
        let d = u64_to_decimal(i as u64 + 1);
        msg.append(d.as_str());
        msg.append(". @");
        msg.append(PERSPECTIVE_MOUNT);
        msg.append("/");
        msg.append(path.dir_name.as_str());
        msg.append("/");
        msg.append(path.relative_path.as_str());
        msg.append("\n");
        assert(pv.take(i + 1).drop_last() =~= pv.take(i as int));
        assert(pv.take(i + 1).last() == path@);
        assert(msg@ =~= base + priority_lines(pv.take(i + 1)));
        i = i + 1;
    }
    assert(pv.take(paths@.len() as int) =~= pv);
}

fn append_perspective(msg: &mut String, job: &Job, perspectives: &ValidatedPerspectives)
    ensures
        final(msg)@ == old(msg)@ + perspective_section(*job, *perspectives),
{
    if let Some(name) = job.detail.perspective() {
        msg.append("\nPerspective: ");
        msg.append(name.as_str());
        msg.append("\n");
        msg.append("Perspective Documents: ");
        msg.append(PERSPECTIVE_MOUNT);
        msg.append("/\n");
        let ghost h = msg@;
        let found = perspectives.find(name.as_str());
        if let Some(perspective) = found {
            msg.append("Perspective Priority Paths:\n");
            append_priority_paths(msg, &perspective.paths);
        }
        proof {
            let pvs = perspective_views(perspectives.perspectives@);
            lemma_first_named(pvs, name@);
            match first_named(pvs, name@) {
                Some(i) => {
                    assert(pvs[i].paths == path_views(perspectives.perspectives@[i].paths@));
                },
                None => {},
            }
        }
    }
    assert(msg@ =~= old(msg)@ + perspective_section(*job, *perspectives));
}

/// Format a job into an instruction message for a member.
///
/// `round` is included for review jobs so the review worker knows which round
/// directory to use; `perspectives` supplies the priority paths of the job's
/// perspective; `plan_loc` resolves the container-side path of the job's
/// plan.
pub fn format_job_instruction(
    job: &Job,
    round: Option<u32>,
    perspectives: &ValidatedPerspectives,
    plan_loc: &PlanLocation,
) -> (r: String)
    ensures
        r@ == instruction_text(*job, round, *perspectives, *plan_loc),
{
    let mut msg = String::from_str("## Task: ");
    msg.append(job.title.as_str());
    msg.append("\n\nID: ");
    msg.append(job.id.as_str());
    msg.append("\n");
    append_plan(&mut msg, job, plan_loc);
    append_repository(&mut msg, job);
    append_pull_request(&mut msg, job);
    append_round(&mut msg, job, round);
    append_perspective(&mut msg, job, perspectives);
    msg.append("\nPlease begin working on this");
    msg.append(" task.");
    assert(msg@ =~= instruction_text(*job, round, *perspectives, *plan_loc));
    msg
}

} // verus!
