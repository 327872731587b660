//! Orchestrator tasks: shell commands that check a crafter's work. What a
//! command's outcome is when it could not run to the end, the record kept
//! of it, and the job status it leads to.
use vstd::prelude::*;
use vstd::string::*;
use crate::domain::{JobDetail, JobStatus, MechanizedStatus};

verus! {

/// Seconds an orchestrator task's command may run before it counts as
/// failed.
pub const CHECK_TIMEOUT_SECS: u64 = 300;

/// What running a check command gave.
#[derive(Debug, Clone)]
pub struct CommandOutcome {
    pub success: bool,
    pub stdout: String,
    pub stderr: String,
    pub exit_code: Option<i32>,
}

/// The outcome of a command that ran past [`CHECK_TIMEOUT_SECS`]: failed,
/// with `command timed out` as its error output.
pub fn timed_out_outcome() -> (o: CommandOutcome)
    ensures
        !o.success,
        o.stdout@.len() == 0,
        o.stderr@ == "command timed out"@,
        o.exit_code is None,
{
    CommandOutcome {
        success: false,
        stdout: String::new(),
        stderr: String::from_str("command timed out"),
        exit_code: None,
    }
}

/// The outcome of a command that could not be started (`stage` is
/// `spawn`) or waited for (`stage` is `wait`): failed, with `<stage>
/// error: <error>` as its error output.
pub fn launch_failed_outcome(stage: &str, error: &str) -> (o: CommandOutcome)
    ensures
        !o.success,
        o.stdout@.len() == 0,
        o.stderr@ == stage@ + " error: "@ + error@,
        o.exit_code is None,
{
    CommandOutcome {
        success: false,
        stdout: String::new(),
        stderr: String::from_str(stage).concat(" error: ").concat(error),
        exit_code: None,
    }
}

/// The record of a finished check, saved as `check-result.json` in the
/// craft job's artifacts.
#[derive(Debug, Clone)]
pub struct CheckResult {
    /// `success` or `failed`.
    pub status: String,
    pub command: Option<String>,
    pub exit_code: Option<i32>,
    pub stdout: String,
    pub stderr: String,
    pub duration_ms: u64,
}

pub open spec fn command_of(detail: JobDetail) -> Option<String> {
    match detail {
        JobDetail::Orchestrator { command } => command,
        _ => None,
    }
}

/// The command of an orchestrator job.
pub fn job_command(detail: &JobDetail) -> (r: Option<String>)
    ensures
        match command_of(*detail) {
            Some(c) => r matches Some(x) && x@ == c@,
            None => r is None,
        },
{
    match detail {
        JobDetail::Orchestrator { command: Some(c) } => Some(c.clone()),
        _ => None,
    }
}

/// The record of a check of the orchestrator job with `detail`.
pub fn check_result(detail: &JobDetail, outcome: &CommandOutcome, duration_ms: u64) -> (r: CheckResult)
    ensures
        r.status@ == (if outcome.success {
            "success"@
        } else {
            "failed"@
        }),
        match command_of(*detail) {
            Some(c) => r.command matches Some(x) && x@ == c@,
            None => r.command is None,
        },
        r.exit_code == outcome.exit_code,
        r.stdout@ == outcome.stdout@,
        r.stderr@ == outcome.stderr@,
        r.duration_ms == duration_ms,
{
    let status = if outcome.success {
        String::from_str("success")
    } else {
        String::from_str("failed")
    };
    CheckResult {
        status,
        command: job_command(detail),
        exit_code: outcome.exit_code,
        stdout: outcome.stdout.clone(),
        stderr: outcome.stderr.clone(),
        duration_ms,
    }
}

/// The status an orchestrator job takes when its check finishes: `Done`
/// when it succeeded (the task may then complete), `Failed` otherwise (the
/// craft sibling is then sent back to work).
pub fn status_after_check(success: bool) -> (s: JobStatus)
    ensures
        s == (if success {
            JobStatus::Orchestrator(MechanizedStatus::Done)
        } else {
            JobStatus::Orchestrator(MechanizedStatus::Failed)
        }),
{
    if success {
        JobStatus::Orchestrator(MechanizedStatus::Done)
    } else {
        JobStatus::Orchestrator(MechanizedStatus::Failed)
    }
}

} // verus!
