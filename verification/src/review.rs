//! Review bookkeeping: review rounds, the messages sent to review workers and
//! crafters, and turning an integrated review into a pull request review.
use vstd::prelude::*;
use vstd::string::*;
use crate::text::{contains_string, decimal, u64_to_decimal, views};

verus! {

/// A review worker's verdict.
#[derive(Debug, Clone, Copy, PartialEq, Eq, Structural)]
pub enum Verdict {
    Approved,
    ChangesRequested,
}

/// A submitted review.
#[derive(Debug, Clone)]
pub struct ReviewSubmission {
    pub round: u32,
    pub verdict: Verdict,
    pub summary: Option<String>,
}

/// A comment of an integrated review.
#[derive(Debug, Clone)]
pub struct IntegratedReviewComment {
    pub path: String,
    pub line: u64,
    pub body: String,
}

/// The integrated review a review integrator writes.
#[derive(Debug, Clone)]
pub struct IntegratedReview {
    pub body: String,
    pub comments: Vec<IntegratedReviewComment>,
}

/// The event a pull request review is posted with.
#[derive(Debug, Clone, Copy, PartialEq, Eq, Structural)]
pub enum ReviewEvent {
    Approve,
    RequestChanges,
}

/// An inline comment on a file of a pull request.
#[derive(Debug, Clone)]
pub struct ReviewFileComment {
    pub path: String,
    pub line: u64,
    pub body: String,
}

/// A pull request review ready to post.
#[derive(Debug, Clone)]
pub struct PrReview {
    pub body: String,
    pub comments: Vec<ReviewFileComment>,
    pub event: ReviewEvent,
}

/// The round of the latest submission, or the first round when there is
/// none.
pub open spec fn latest_round_of(subs: Seq<ReviewSubmission>) -> u32 {
    if subs.len() == 0 {
        1
    } else {
        subs.last().round
    }
}

/// The round of the latest submission, or 1.
pub fn latest_round(subs: &Vec<ReviewSubmission>) -> (r: u32)
    ensures
        r == latest_round_of(subs@),
{
    if subs.len() == 0 {
        1
    } else {
        subs[subs.len() - 1].round
    }
}

/// The round a review job is in: one past the number of reviews it has
/// submitted.
pub fn current_review_round(submission_count: usize) -> (r: u32)
    requires
        submission_count < u32::MAX,
    ensures
        r == submission_count + 1,
{
    submission_count as u32 + 1
}

/// The largest round, or 1 when there is none.
pub open spec fn max_round_of(rounds: Seq<u32>) -> u32
    decreases rounds.len(),
{
    if rounds.len() == 0 {
        1
    } else if rounds.len() == 1 {
        rounds[0]
    } else {
        let m = max_round_of(rounds.drop_last());
        if rounds.last() > m {
            rounds.last()
        } else {
            m
        }
    }
}

/// The largest of `rounds`, or 1 when there is none.
pub fn max_round(rounds: &Vec<u32>) -> (r: u32)
    ensures
        r == max_round_of(rounds@),
        rounds@.len() > 0 ==> (forall|i: int| 0 <= i < rounds@.len() ==> rounds@[i] <= r) && rounds@.contains(r),
{
    if rounds.len() == 0 {
        return 1;
    }
    let mut m = rounds[0];
    let mut i: usize = 1;
    assert(rounds@.take(1) =~= seq![rounds@[0]]);
    while i < rounds.len()
        invariant
            1 <= i <= rounds@.len(),
            m == max_round_of(rounds@.take(i as int)),
            forall|j: int| 0 <= j < i ==> rounds@[j] <= m,
            exists|j: int| 0 <= j < i && rounds@[j] == m,
        decreases rounds@.len() - i,
    {
        assert(rounds@.take(i + 1).drop_last() =~= rounds@.take(i as int));
        if rounds[i] > m {
            m = rounds[i];
        }
        i = i + 1;
    }
    assert(rounds@.take(rounds@.len() as int) =~= rounds@);
    m
}

/// The review event a verdict is posted with: approval only for an
/// approving verdict.
pub open spec fn event_for(verdict: Option<Verdict>) -> ReviewEvent {
    match verdict {
        Some(Verdict::Approved) => ReviewEvent::Approve,
        _ => ReviewEvent::RequestChanges,
    }
}

/// `**<path>:<line>** — <body>`, after a blank line: a comment folded into
/// the review body.
pub open spec fn folded_comment(c: IntegratedReviewComment) -> Seq<char> {
    "\n\n**"@ + c.path@ + ":"@ + decimal(c.line as nat) + "** — "@ + c.body@
}

/// Comments on files of the diff, kept as inline comments.
pub open spec fn inline_comments(cs: Seq<IntegratedReviewComment>, diff: Seq<Seq<char>>) -> Seq<(Seq<char>, u64, Seq<char>)>
    decreases cs.len(),
{
    if cs.len() == 0 {
        Seq::empty()
    } else {
        let prev = inline_comments(cs.drop_last(), diff);
        let c = cs.last();
        if diff.contains(c.path@) {
            prev.push((c.path@, c.line, c.body@))
        } else {
            prev
        }
    }
}

/// Comments on files outside the diff, folded into text.
pub open spec fn folded_comments(cs: Seq<IntegratedReviewComment>, diff: Seq<Seq<char>>) -> Seq<char>
    decreases cs.len(),
{
    if cs.len() == 0 {
        Seq::empty()
    } else {
        let prev = folded_comments(cs.drop_last(), diff);
        let c = cs.last();
        if diff.contains(c.path@) {
            prev
        } else {
            prev + folded_comment(c)
        }
    }
}

/// The review body: the integrated review's body, followed by the folded
/// comments under a separator when there are any.
pub open spec fn review_body(review: IntegratedReview, diff: Seq<Seq<char>>) -> Seq<char> {
    let extra = folded_comments(review.comments@, diff);
    if extra.len() == 0 {
        review.body@
    } else {
        review.body@ + "\n\n---\n\nComments on files outside this PR's diff:"@ + extra
    }
}

pub open spec fn file_comment_views(v: Seq<ReviewFileComment>) -> Seq<(Seq<char>, u64, Seq<char>)> {
    v.map_values(|c: ReviewFileComment| (c.path@, c.line, c.body@))
}

/// Turn an integrated review into the pull request review to post:
/// comments on files in `diff_files` become inline comments, the others
/// are folded into the body, and the event follows the verdict.
pub fn compose_pr_review(review: &IntegratedReview, diff_files: &Vec<String>, verdict: Option<Verdict>) -> (r: PrReview)
    ensures
        r.body@ == review_body(*review, views(diff_files@)),
        file_comment_views(r.comments@) == inline_comments(review.comments@, views(diff_files@)),
        r.event == event_for(verdict),
{
    let ghost diff = views(diff_files@);
    let ghost cs = review.comments@;
    let mut inline: Vec<ReviewFileComment> = Vec::new();
    let mut extra = String::new();
    let mut i: usize = 0;
    while i < review.comments.len()
        invariant
            i <= cs.len(),
            cs == review.comments@,
            diff == views(diff_files@),
            file_comment_views(inline@) == inline_comments(cs.take(i as int), diff),
            extra@ == folded_comments(cs.take(i as int), diff),
        decreases cs.len() - i,
    {
        let c = &review.comments[i];
        assert(cs.take(i + 1).drop_last() =~= cs.take(i as int));
        assert(cs.take(i + 1).last() == *c);
        if contains_string(diff_files, c.path.as_str()) {
            inline.push(ReviewFileComment { path: c.path.clone(), line: c.line, body: c.body.clone() });
            assert(file_comment_views(inline@) =~= inline_comments(cs.take(i + 1), diff));
        } else {
            let line = u64_to_decimal(c.line);
            extra.append("\n\n**");
            extra.append(c.path.as_str());
            extra.append(":");
            extra.append(line.as_str());
            extra.append("** — ");
            extra.append(c.body.as_str());
            assert(extra@ =~= folded_comments(cs.take(i + 1), diff));
        }
        i = i + 1;
    }
    assert(cs.take(cs.len() as int) =~= cs);
    let body = if extra.as_str().unicode_len() == 0 {
        review.body.clone()
    } else {
        review.body.clone().concat("\n\n---\n\nComments on files outside this PR's diff:").concat(extra.as_str())
    };
    let event = match verdict {
        Some(Verdict::Approved) => ReviewEvent::Approve,
        _ => ReviewEvent::RequestChanges,
    };
    PrReview { body, comments: inline, event }
}

/// The re-instruction for a review worker whose review.md is missing.
pub open spec fn missing_review_message(round: u32, job_id: Seq<char>) -> Seq<char> {
    "## Missing Artifact\n\nYour review.md file was not found at the expected location.\nPlease write your review to: /home/agent/artifacts/round-"@
        + decimal(round as nat) + "/"@ + job_id
        + "/review.md\n\nWrite the file first, then re-submit your review."@
}

/// Ask a review worker to write the review.md it has not written.
pub fn missing_review_instruction(round: u32, job_id: &str) -> (r: String)
    ensures
        r@ == missing_review_message(round, job_id@),
{
    let n = u64_to_decimal(round as u64);
    String::from_str(
        "## Missing Artifact\n\nYour review.md file was not found at the expected location.\nPlease write your review to: /home/agent/artifacts/round-",
    ).concat(n.as_str()).concat("/").concat(job_id).concat(
        "/review.md\n\nWrite the file first, then re-submit your review.",
    )
}

/// The re-instruction for an integrator whose integrated-review.json is
/// missing.
pub open spec fn missing_integrated_review_message(round: u32) -> Seq<char> {
    "## Missing Artifact\n\nYour integrated-review.json file was not found at the expected location.\nPlease write the integrated review to: /home/agent/artifacts/round-"@
        + decimal(round as nat) + "/integrated-review.json\n\nFollow the format described in your prompt."@
}

/// Ask an integrator to write the integrated-review.json it has not written.
pub fn missing_integrated_review_instruction(round: u32) -> (r: String)
    ensures
        r@ == missing_integrated_review_message(round),
{
    let n = u64_to_decimal(round as u64);
    String::from_str(
        "## Missing Artifact\n\nYour integrated-review.json file was not found at the expected location.\nPlease write the integrated review to: /home/agent/artifacts/round-",
    ).concat(n.as_str()).concat("/integrated-review.json\n\nFollow the format described in your prompt.")
}

/// The feedback a crafter gets when a review requests changes: the latest
/// submission's summary, or a stock line when it has none.
pub open spec fn review_feedback_message(review_job_id: Seq<char>, subs: Seq<ReviewSubmission>) -> Seq<char> {
    let feedback = if subs.len() > 0 && subs.last().summary is Some {
        subs.last().summary.unwrap()@
    } else {
        "Changes requested (no summary provided)"@
    };
    "## Review Feedback (changes requested)\n\nReview job "@ + review_job_id + " has requested changes:\n\n"@
        + feedback + "\n\nPlease address the feedback and complete the task."@
}

/// Tell a crafter what a review asked to change.
pub fn review_feedback(review_job_id: &str, subs: &Vec<ReviewSubmission>) -> (r: String)
    ensures
        r@ == review_feedback_message(review_job_id@, subs@),
{
    let feedback = if subs.len() > 0 {
        match &subs[subs.len() - 1].summary {
            Some(s) => s.clone(),
            None => String::from_str("Changes requested (no summary provided)"),
        }
    } else {
        String::from_str("Changes requested (no summary provided)")
    };
    String::from_str("## Review Feedback (changes requested)\n\nReview job ").concat(review_job_id).concat(
        " has requested changes:\n\n",
    ).concat(feedback.as_str()).concat("\n\nPlease address the feedback and complete the task.")
}

/// Characters of a failed check's error output that a crafter is shown.
pub const CHECK_OUTPUT_LIMIT: usize = 4000;

/// The report a crafter gets when an automated check of its work failed:
/// the command, the craft job's id (on the line labelled "Exit code"), and
/// the first [`CHECK_OUTPUT_LIMIT`] characters of the error output.
pub open spec fn check_failed_message(command: Seq<char>, craft_job_id: Seq<char>, stderr: Seq<char>) -> Seq<char> {
    let shown = if stderr.len() <= CHECK_OUTPUT_LIMIT {
        stderr
    } else {
        stderr.take(CHECK_OUTPUT_LIMIT as int)
    };
    "## Automated Check Failed\n\nCommand: "@ + command + "\nExit code: "@ + craft_job_id + "\n\n```\n"@ + shown
        + "\n```\n\nPlease fix the issues and try again."@
}

/// Report a failed automated check to the crafter.
pub fn check_failed_report(command: &str, craft_job_id: &str, stderr: &str) -> (r: String)
    ensures
        r@ == check_failed_message(command@, craft_job_id@, stderr@),
{
    let n = stderr.unicode_len();
    let end = if n <= CHECK_OUTPUT_LIMIT { n } else { CHECK_OUTPUT_LIMIT };
    let shown = stderr.substring_char(0, end);
    assert(n <= CHECK_OUTPUT_LIMIT ==> shown@ =~= stderr@);
    String::from_str("## Automated Check Failed\n\nCommand: ").concat(command).concat("\nExit code: ").concat(
        craft_job_id,
    ).concat("\n\n```\n").concat(shown).concat("\n```\n\nPlease fix the issues and try again.")
}

} // verus!
