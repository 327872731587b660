//! Worker monitoring: which workers a poll checks, crash recovery and its
//! retry budget, stall and authentication-error detection from terminal
//! pane snapshots, idle-member and worker-limit deadlock detection.
//!
//! Times are milliseconds on a monotonic clock.
use vstd::prelude::*;
use vstd::string::*;
use crate::domain::{WorkerRole, WorkerState, WorkerStatus};
use crate::text::{lemma_push_contains, keyed, contains_string, views, assoc, assoc_set, lemma_assoc_update, lemma_assoc_found, lemma_assoc_missing, lemma_assoc_push, contains, decimal, same_text, seq_contains, u64_to_decimal};

verus! {

/// Base interval between monitoring polls.
pub const MONITOR_POLL_BASE_MS: u64 = 2500;

/// Maximum random jitter added to each poll interval.
pub const MONITOR_POLL_JITTER_MS: u64 = 500;

/// Number of poll cycles between liveness checks.
pub const LIVENESS_CHECK_EVERY: u64 = 3;

/// Time without pane content change before a worker is considered stalled.
pub const STALL_TIMEOUT_MS: u64 = 10000;

/// Interval between repeated stall/auth-error alerts for the same worker.
pub const REALERT_INTERVAL_MS: u64 = 60000;

/// Maximum crash recovery attempts per worker before escalation.
pub const CRASH_RETRY_LIMIT: u32 = 3;

/// The prompt file a crashed worker is restarted with when it has no
/// session to resume.
pub const RECOVERY_PROMPT_FILE: &'static str = "/home/agent/prompt.md";

/// Pane text that signals expired worker credentials.
pub const AUTH_ERROR_MARKER: &'static str = "authentication_error";

/// Pane content hash and change/alert times of one worker.
#[derive(Debug, Clone, Copy, PartialEq, Eq, Structural)]
pub struct PaneSnapshot {
    pub hash: u64,
    pub last_changed: u64,
    pub stall_alerted_at: Option<u64>,
    pub auth_error_alerted_at: Option<u64>,
}

/// What one pane observation reports.
#[derive(Debug, Clone, Copy, PartialEq, Eq, Structural)]
pub enum PaneAlert {
    /// Nothing to report.
    Quiet,
    /// The pane shows an authentication error.
    AuthError,
    /// The pane has not changed for `stalled_ms`.
    Stall { stalled_ms: u64 },
}

/// What a poll does with one worker.
#[derive(Debug, Clone, Copy, PartialEq, Eq, Structural)]
pub enum WorkerCheck {
    /// Not monitored in this state.
    Skip,
    /// The container is gone: start crash handling.
    Crash,
    /// Look at the pane for stalls and authentication errors.
    CheckPane,
}

/// How a crashed worker's agent is started again.
#[derive(Debug, Clone)]
pub enum RecoveryCommand {
    /// Resume the recorded session.
    Resume { session_id: String },
    /// Start afresh from the prompt file.
    FreshStart { prompt_file: String },
}

/// A message for a worker's supervisor.
#[derive(Debug, Clone)]
pub struct SupervisorAlert {
    pub supervisor_id: String,
    pub message: String,
}

/// What to do after a crash was recorded.
#[derive(Debug, Clone)]
pub enum CrashPlan {
    /// The retry budget is spent: report the crash as unrecoverable.
    Escalate { alert: Option<SupervisorAlert> },
    /// Restart the container, send `command`, mark the worker Booting,
    /// watch it for readiness, then send `alert`.
    Recover { attempt: u32, command: RecoveryCommand, alert: Option<SupervisorAlert> },
}

/// Monitor memory kept between polls, per worker id.
#[derive(Debug, Clone)]
pub struct MonitorState {
    pub snapshots: Vec<(String, PaneSnapshot)>,
    pub crash_retries: Vec<(String, u32)>,
}

/// Time elapsed from `since` to `now` (zero if `since` is later).
pub open spec fn elapsed(now: u64, since: u64) -> u64 {
    if now >= since { (now - since) as u64 } else { 0 }
}

/// Whether an alert last raised at `last` may be raised again at `now`.
pub open spec fn may_alert(last: Option<u64>, now: u64) -> bool {
    match last {
        None => true,
        Some(t) => elapsed(now, t) >= REALERT_INTERVAL_MS,
    }
}

/// The snapshot after observing a pane with content hash `hash` at `now`,
/// and what the observation reports.
pub open spec fn pane_step(prev: Option<PaneSnapshot>, hash: u64, auth_error: bool, now: u64) -> (PaneSnapshot, PaneAlert) {
    let snap = match prev {
        Some(s) => s,
        None => PaneSnapshot { hash, last_changed: now, stall_alerted_at: None, auth_error_alerted_at: None },
    };
    if snap.hash != hash {
        (PaneSnapshot { hash, last_changed: now, stall_alerted_at: None, auth_error_alerted_at: None }, PaneAlert::Quiet)
    } else if auth_error {
        if may_alert(snap.auth_error_alerted_at, now) {
            (PaneSnapshot { auth_error_alerted_at: Some(now), ..snap }, PaneAlert::AuthError)
        } else {
            (snap, PaneAlert::Quiet)
        }
    } else if elapsed(now, snap.last_changed) < STALL_TIMEOUT_MS {
        (snap, PaneAlert::Quiet)
    } else if may_alert(snap.stall_alerted_at, now) {
        (PaneSnapshot { stall_alerted_at: Some(now), ..snap }, PaneAlert::Stall { stalled_ms: elapsed(now, snap.last_changed) })
    } else {
        (snap, PaneAlert::Quiet)
    }
}

/// What a poll does with a worker in `status`: booting, crashed and
/// suspended workers are left alone, as is everyone in a suspending
/// workflow; on a liveness poll a stopped container is a crash; otherwise
/// the pane is examined.
pub open spec fn check_for(status: WorkerStatus, suspending: bool, check_liveness: bool, container_running: bool) -> WorkerCheck {
    match status {
        WorkerStatus::Booting | WorkerStatus::Crashed | WorkerStatus::Suspended => WorkerCheck::Skip,
        _ => if suspending {
            WorkerCheck::Skip
        } else if check_liveness && !container_running {
            WorkerCheck::Crash
        } else {
            WorkerCheck::CheckPane
        },
    }
}

/// Decide what a poll does with a worker (see [`check_for`]).
pub fn worker_check(status: WorkerStatus, suspending: bool, check_liveness: bool, container_running: bool) -> (c: WorkerCheck)
    ensures
        c == check_for(status, suspending, check_liveness, container_running),
{
    match status {
        WorkerStatus::Booting | WorkerStatus::Crashed | WorkerStatus::Suspended => WorkerCheck::Skip,
        _ => if suspending {
            WorkerCheck::Skip
        } else if check_liveness && !container_running {
            WorkerCheck::Crash
        } else {
            WorkerCheck::CheckPane
        },
    }
}

/// Whether the `poll_count`-th poll also checks container liveness.
pub fn is_liveness_poll(poll_count: u64) -> (b: bool)
    ensures
        b == (poll_count % LIVENESS_CHECK_EVERY == 0),
{
    poll_count % LIVENESS_CHECK_EVERY == 0
}

/// One xorshift64 step.
pub open spec fn xorshift64(x: u64) -> u64 {
    let a = x ^ (x << 13u64);
    let b = a ^ (a >> 7u64);
    b ^ (b << 17u64)
}

/// Advance the jitter generator's state (xorshift64).
pub fn xorshift64_next(x: u64) -> (r: u64)
    ensures
        r == xorshift64(x),
{
    let a = x ^ (x << 13u64);
    let b = a ^ (a >> 7u64);
    b ^ (b << 17u64)
}

/// The delay before the next poll: the base interval plus a jitter taken
/// from the random value `r`.
pub fn poll_interval_ms(r: u64) -> (ms: u64)
    ensures
        ms == MONITOR_POLL_BASE_MS + r % MONITOR_POLL_JITTER_MS,
        MONITOR_POLL_BASE_MS <= ms < MONITOR_POLL_BASE_MS + MONITOR_POLL_JITTER_MS,
{
    MONITOR_POLL_BASE_MS + r % MONITOR_POLL_JITTER_MS
}

/// Hash of a pane's content, used only to notice changes.
pub uninterp spec fn pane_hash(content: Seq<char>) -> u64;

/// Hash `s` with std's `DefaultHasher` (through `BuildHasher::hash_one`).
/// A `DefaultHasher` made by `new`/`default` is unkeyed, so equal strings
/// hash equally; nothing is claimed about which strings collide.
#[verifier::external_body]
pub fn hash_string(s: &str) -> (h: u64)
    ensures
        h == pane_hash(s@),
{
    std::hash::BuildHasher::hash_one(&std::hash::BuildHasherDefault::<std::hash::DefaultHasher>::default(), s)
}

pub open spec fn snapshot_views(v: Seq<(String, PaneSnapshot)>) -> Seq<(Seq<char>, PaneSnapshot)> {
    keyed(v)
}

pub open spec fn retry_views(v: Seq<(String, u32)>) -> Seq<(Seq<char>, u32)> {
    keyed(v)
}

/// The number of crashes recorded for `id`.
pub open spec fn retries_of(retries: Seq<(Seq<char>, u32)>, id: Seq<char>) -> nat {
    match assoc(retries, id) {
        Some(n) => n as nat,
        None => 0,
    }
}

/// `[alert] member=<id> type=crash_recovery attempt=<n>`
pub open spec fn crash_recovery_message(id: Seq<char>, attempt: u32) -> Seq<char> {
    "[alert] member="@ + id + " type=crash_recovery attempt="@ + decimal(attempt as nat)
}

/// `[alert] member=<id> type=crash_unrecoverable retries_exhausted=true`
pub open spec fn crash_unrecoverable_message(id: Seq<char>) -> Seq<char> {
    "[alert] member="@ + id + " type=crash_unrecoverable retries_exhausted=true"@
}

/// The supervisor to tell about a member's crash: only members with a
/// supervisor are reported on.
pub open spec fn alert_target(w: WorkerState) -> Option<String> {
    if w.role is Member {
        w.supervisor_id
    } else {
        None
    }
}

impl MonitorState {
    pub open spec fn snapshot_view(&self) -> Seq<(Seq<char>, PaneSnapshot)> {
        snapshot_views(self.snapshots@)
    }

    pub open spec fn retry_view(&self) -> Seq<(Seq<char>, u32)> {
        retry_views(self.crash_retries@)
    }

    /// An empty memory.
    pub fn new() -> (s: MonitorState)
        ensures
            s.snapshots@.len() == 0,
            s.crash_retries@.len() == 0,
    {
        MonitorState { snapshots: Vec::new(), crash_retries: Vec::new() }
    }

    /// The snapshot kept for worker `id`.
    pub fn snapshot(&self, id: &str) -> (r: Option<PaneSnapshot>)
        ensures
            r == assoc(self.snapshot_view(), id@),
    {
        let ghost list = self.snapshot_view();
        let mut i: usize = 0;
        while i < self.snapshots.len()
            invariant
                i <= self.snapshots@.len(),
                list == self.snapshot_view(),
                forall|j: int| 0 <= j < i ==> list[j].0 != id@,
            decreases self.snapshots@.len() - i,
        {
            if same_text(self.snapshots[i].0.as_str(), id) {
                proof {
                    lemma_assoc_found(list, id@, i as int);
                }
                return Some(self.snapshots[i].1);
            }
            i = i + 1;
        }
        proof {
            lemma_assoc_missing(list, id@);
        }
        None
    }

    /// The crash count kept for worker `id`.
    pub fn retries(&self, id: &str) -> (r: u32)
        ensures
            r == retries_of(self.retry_view(), id@),
    {
        let ghost list = self.retry_view();
        let mut i: usize = 0;
        while i < self.crash_retries.len()
            invariant
                i <= self.crash_retries@.len(),
                list == self.retry_view(),
                forall|j: int| 0 <= j < i ==> list[j].0 != id@,
            decreases self.crash_retries@.len() - i,
        {
            if same_text(self.crash_retries[i].0.as_str(), id) {
                proof {
                    lemma_assoc_found(list, id@, i as int);
                }
                return self.crash_retries[i].1;
            }
            i = i + 1;
        }
        proof {
            lemma_assoc_missing(list, id@);
        }
        0
    }
}


/// The plan for a crash of `worker` after `prior` recorded crashes: past
/// [`CRASH_RETRY_LIMIT`] crashes, escalation (telling a member's
/// supervisor); otherwise a restart that resumes the recorded session or
/// starts afresh, telling a member's supervisor which attempt it is.
pub open spec fn crash_plan_for(plan: CrashPlan, worker: WorkerState, prior: nat) -> bool {
    let attempt = prior + 1;
    if attempt > CRASH_RETRY_LIMIT {
        plan matches CrashPlan::Escalate { alert } && match alert_target(worker) {
            Some(sup) => alert matches Some(a) && a.supervisor_id@ == sup@ && a.message@
                == crash_unrecoverable_message(worker.id@),
            None => alert is None,
        }
    } else {
        plan matches CrashPlan::Recover { attempt: n, command, alert } && n == attempt && match worker.session_id {
            Some(sid) => command matches RecoveryCommand::Resume { session_id } && session_id@ == sid@,
            None => command matches RecoveryCommand::FreshStart { prompt_file } && prompt_file@
                == RECOVERY_PROMPT_FILE@,
        } && match alert_target(worker) {
            Some(sup) => alert matches Some(a) && a.supervisor_id@ == sup@ && a.message@
                == crash_recovery_message(worker.id@, n),
            None => alert is None,
        }
    }
}

impl MonitorState {
    /// Keep `snap` as the snapshot of worker `id`.
    pub fn set_snapshot(&mut self, id: &str, snap: PaneSnapshot)
        ensures
            forall|k: Seq<char>| #[trigger] assoc(final(self).snapshot_view(), k) == assoc_set(
                old(self).snapshot_view(),
                id@,
                snap,
                k,
            ),
            final(self).crash_retries@ == old(self).crash_retries@,
    {
        let ghost list = self.snapshot_view();
        let mut i: usize = 0;
        while i < self.snapshots.len()
            invariant
                i <= self.snapshots@.len(),
                list == self.snapshot_view(),
                self.snapshots@ == old(self).snapshots@,
                self.crash_retries@ == old(self).crash_retries@,
                forall|j: int| 0 <= j < i ==> list[j].0 != id@,
            decreases self.snapshots@.len() - i,
        {
            if same_text(self.snapshots[i].0.as_str(), id) {
                self.snapshots.set(i, (String::from_str(id), snap));
                assert(self.snapshot_view() =~= list.update(i as int, (id@, snap)));
                assert forall|k: Seq<char>| #[trigger] assoc(self.snapshot_view(), k) == assoc_set(list, id@, snap, k) by {
                    lemma_assoc_update(list, i as int, id@, snap, k);
                }
                return;
            }
            i = i + 1;
        }
        proof {
            lemma_assoc_missing(list, id@);
        }
        self.snapshots.push((String::from_str(id), snap));
        assert(self.snapshot_view() =~= list.push((id@, snap)));
        assert forall|k: Seq<char>| #[trigger] assoc(self.snapshot_view(), k) == assoc_set(list, id@, snap, k) by {
            lemma_assoc_push(list, (id@, snap), k);
        }
    }

    /// Record `n` crashes for worker `id`.
    pub fn set_retries(&mut self, id: &str, n: u32)
        ensures
            forall|k: Seq<char>| #[trigger] assoc(final(self).retry_view(), k) == assoc_set(
                old(self).retry_view(),
                id@,
                n,
                k,
            ),
            final(self).snapshots@ == old(self).snapshots@,
    {
        let ghost list = self.retry_view();
        let mut i: usize = 0;
        while i < self.crash_retries.len()
            invariant
                i <= self.crash_retries@.len(),
                list == self.retry_view(),
                self.crash_retries@ == old(self).crash_retries@,
                self.snapshots@ == old(self).snapshots@,
                forall|j: int| 0 <= j < i ==> list[j].0 != id@,
            decreases self.crash_retries@.len() - i,
        {
            if same_text(self.crash_retries[i].0.as_str(), id) {
                self.crash_retries.set(i, (String::from_str(id), n));
                assert(self.retry_view() =~= list.update(i as int, (id@, n)));
                assert forall|k: Seq<char>| #[trigger] assoc(self.retry_view(), k) == assoc_set(list, id@, n, k) by {
                    lemma_assoc_update(list, i as int, id@, n, k);
                }
                return;
            }
            i = i + 1;
        }
        proof {
            lemma_assoc_missing(list, id@);
        }
        self.crash_retries.push((String::from_str(id), n));
        assert(self.retry_view() =~= list.push((id@, n)));
        assert forall|k: Seq<char>| #[trigger] assoc(self.retry_view(), k) == assoc_set(list, id@, n, k) by {
            lemma_assoc_push(list, (id@, n), k);
        }
    }

    /// Observe the pane of a working worker: compare its content with the
    /// last snapshot, update the snapshot and report an authentication error
    /// or a stall when one is due (see [`pane_step`]). Workers in any other
    /// state are not watched: nothing changes and nothing is reported.
    pub fn observe_pane(&mut self, id: &str, status: WorkerStatus, content: &str, now: u64) -> (alert: PaneAlert)
        ensures
            status == WorkerStatus::Working ==> {
                let step = pane_step(
                    assoc(old(self).snapshot_view(), id@),
                    pane_hash(content@),
                    seq_contains(content@, AUTH_ERROR_MARKER@),
                    now,
                );
                &&& alert == step.1
                &&& forall|k: Seq<char>| #[trigger] assoc(final(self).snapshot_view(), k) == assoc_set(
                    old(self).snapshot_view(),
                    id@,
                    step.0,
                    k,
                )
            },
            status != WorkerStatus::Working ==> alert == PaneAlert::Quiet && final(self).snapshots@
                == old(self).snapshots@,
            final(self).crash_retries@ == old(self).crash_retries@,
    {
        if status != WorkerStatus::Working {
            return PaneAlert::Quiet;
        }
        let hash = hash_string(content);
        let auth_error = contains(content, AUTH_ERROR_MARKER);
        let snap = match self.snapshot(id) {
            Some(s) => s,
            None => PaneSnapshot { hash, last_changed: now, stall_alerted_at: None, auth_error_alerted_at: None },
        };
        let since_change = if now >= snap.last_changed { now - snap.last_changed } else { 0 };
        let (next, alert) = if snap.hash != hash {
            (PaneSnapshot { hash, last_changed: now, stall_alerted_at: None, auth_error_alerted_at: None }, PaneAlert::Quiet)
        } else if auth_error {
            let due = match snap.auth_error_alerted_at {
                None => true,
                Some(t) => (if now >= t { now - t } else { 0 }) >= REALERT_INTERVAL_MS,
            };
            if due {
                (PaneSnapshot { auth_error_alerted_at: Some(now), ..snap }, PaneAlert::AuthError)
            } else {
                (snap, PaneAlert::Quiet)
            }
        } else if since_change < STALL_TIMEOUT_MS {
            (snap, PaneAlert::Quiet)
        } else {
            let due = match snap.stall_alerted_at {
                None => true,
                Some(t) => (if now >= t { now - t } else { 0 }) >= REALERT_INTERVAL_MS,
            };
            if due {
                (PaneSnapshot { stall_alerted_at: Some(now), ..snap }, PaneAlert::Stall { stalled_ms: since_change })
            } else {
                (snap, PaneAlert::Quiet)
            }
        };
        self.set_snapshot(id, next);
        alert
    }

    /// Record one more crash of `worker` and decide what to do: past
    /// [`CRASH_RETRY_LIMIT`] crashes the crash is escalated, otherwise the
    /// worker is restarted (resuming its session when one is known) and its
    /// supervisor told. Only members with a supervisor produce alerts.
    pub fn record_crash(&mut self, worker: &WorkerState) -> (plan: CrashPlan)
        requires
            retries_of(old(self).retry_view(), worker.id@) < u32::MAX,
        ensures
            forall|k: Seq<char>| #[trigger] assoc(final(self).retry_view(), k) == assoc_set(
                old(self).retry_view(),
                worker.id@,
                (retries_of(old(self).retry_view(), worker.id@) + 1) as u32,
                k,
            ),
            final(self).snapshots@ == old(self).snapshots@,
            crash_plan_for(plan, *worker, retries_of(old(self).retry_view(), worker.id@)),
    {
        let attempt = self.retries(worker.id.as_str()) + 1;
        self.set_retries(worker.id.as_str(), attempt);
        let is_member = match worker.role {
            WorkerRole::Member => true,
            _ => false,
        };
        if attempt > CRASH_RETRY_LIMIT {
            let alert = if is_member {
                match &worker.supervisor_id {
                    Some(sup) => Some(SupervisorAlert {
                        supervisor_id: sup.clone(),
                        message: String::from_str("[alert] member=").concat(worker.id.as_str()).concat(
                            " type=crash_unrecoverable retries_exhausted=true",
                        ),
                    }),
                    None => None,
                }
            } else {
                None
            };
            return CrashPlan::Escalate { alert };
        }
        let command = match &worker.session_id {
            Some(sid) => RecoveryCommand::Resume { session_id: sid.clone() },
            None => RecoveryCommand::FreshStart { prompt_file: String::from_str(RECOVERY_PROMPT_FILE) },
        };
        let alert = if is_member {
            match &worker.supervisor_id {
                Some(sup) => {
                    let n = u64_to_decimal(attempt as u64);
                    Some(SupervisorAlert {
                        supervisor_id: sup.clone(),
                        message: String::from_str("[alert] member=").concat(worker.id.as_str()).concat(
                            " type=crash_recovery attempt=",
                        ).concat(n.as_str()),
                    })
                },
                None => None,
            }
        } else {
            None
        };
        CrashPlan::Recover { attempt, command, alert }
    }
}

/// `list` restricted to the keys in `keep`.
fn retain_keys<V: Copy>(list: &Vec<(String, V)>, keep: &Vec<String>) -> (r: Vec<(String, V)>)
    ensures
        forall|k: Seq<char>| #[trigger] assoc(keyed(r@), k) == if views(
            keep@,
        ).contains(k) {
            assoc(keyed(list@), k)
        } else {
            None
        },
{
    let ghost lv = keyed(list@);
    let mut r: Vec<(String, V)> = Vec::new();
    let mut i: usize = 0;
    while i < list.len()
        invariant
            i <= list@.len(),
            lv == keyed(list@),
            forall|k: Seq<char>| #[trigger] assoc(keyed(r@), k) == if views(
                keep@,
            ).contains(k) {
                assoc(lv.take(i as int), k)
            } else {
                None
            },
        decreases list@.len() - i,
    {
        let key = &list[i].0;
        let val = list[i].1;
        let ghost x = (key@, val);
        let ghost rv = keyed(r@);
        assert(lv.take(i + 1) =~= lv.take(i as int).push(x));
        if contains_string(keep, key.as_str()) {
            r.push((key.clone(), val));
            assert(keyed(r@) =~= rv.push(x));
            assert forall|k: Seq<char>| #[trigger] assoc(keyed(r@), k) == if views(
                keep@,
            ).contains(k) {
                assoc(lv.take(i + 1), k)
            } else {
                None
            } by {
                lemma_assoc_push(rv, x, k);
                lemma_assoc_push(lv.take(i as int), x, k);
            }
        } else {
            assert forall|k: Seq<char>| #[trigger] assoc(keyed(r@), k) == if views(
                keep@,
            ).contains(k) {
                assoc(lv.take(i + 1), k)
            } else {
                None
            } by {
                lemma_assoc_push(lv.take(i as int), x, k);
            }
        }
        i = i + 1;
    }
    assert(lv.take(list@.len() as int) =~= lv);
    r
}

impl MonitorState {
    /// Forget snapshots and crash counts of workers that no longer exist.
    pub fn retain_workers(&mut self, active_ids: &Vec<String>)
        ensures
            forall|k: Seq<char>| #[trigger] assoc(final(self).snapshot_view(), k) == if views(active_ids@).contains(k) {
                assoc(old(self).snapshot_view(), k)
            } else {
                None
            },
            forall|k: Seq<char>| #[trigger] assoc(final(self).retry_view(), k) == if views(active_ids@).contains(k) {
                assoc(old(self).retry_view(), k)
            } else {
                None
            },
    {
        let snapshots = retain_keys(&self.snapshots, active_ids);
        let retries = retain_keys(&self.crash_retries, active_ids);
        self.snapshots = snapshots;
        self.crash_retries = retries;
    }
}

/// What one poll found for one worker.
#[derive(Debug, Clone)]
pub enum WorkerOutcome {
    /// Not monitored now.
    Skipped,
    /// Its container is gone and the crash was recorded: carry out `plan`.
    Crashed(CrashPlan),
    /// Its container is gone but the store did not take its Crashed
    /// status, so the crash is not counted.
    CrashNotRecorded,
    /// Its pane could not be captured.
    PaneUnavailable,
    /// What its pane showed.
    Pane(PaneAlert),
}

/// Whether no two workers share an id.
pub open spec fn ids_distinct(ws: Seq<WorkerState>) -> bool {
    forall|a: int, b: int| 0 <= a < b < ws.len() ==> ws[a].id@ != ws[b].id@
}

/// Whether a poll looks at the pane of `w` and has it (`pane`).
pub open spec fn pane_observed(w: WorkerState, suspending: bool, check_liveness: bool, running: bool, pane: Option<String>) -> bool {
    &&& check_for(w.status, suspending, check_liveness, running) == WorkerCheck::CheckPane
    &&& w.status == WorkerStatus::Working
    &&& pane is Some
}

/// Whether a poll records a crash of `w`.
pub open spec fn crash_counted(w: WorkerState, suspending: bool, check_liveness: bool, running: bool, marked: bool) -> bool {
    check_for(w.status, suspending, check_liveness, running) == WorkerCheck::Crash && marked
}

/// The pane step of an observed pane.
pub open spec fn observed_step(snaps: Seq<(Seq<char>, PaneSnapshot)>, w: WorkerState, content: Seq<char>, now: u64) -> (PaneSnapshot, PaneAlert) {
    pane_step(assoc(snaps, w.id@), pane_hash(content), seq_contains(content, AUTH_ERROR_MARKER@), now)
}

/// What a poll reports for `w`, given the snapshots and crash counts kept
/// before the poll.
pub open spec fn outcome_for(
    o: WorkerOutcome,
    w: WorkerState,
    suspending: bool,
    check_liveness: bool,
    running: bool,
    marked: bool,
    pane: Option<String>,
    snaps: Seq<(Seq<char>, PaneSnapshot)>,
    retries: Seq<(Seq<char>, u32)>,
    now: u64,
) -> bool {
    match check_for(w.status, suspending, check_liveness, running) {
        WorkerCheck::Skip => o is Skipped,
        WorkerCheck::Crash => if marked {
            o matches WorkerOutcome::Crashed(plan) && crash_plan_for(plan, w, retries_of(retries, w.id@))
        } else {
            o is CrashNotRecorded
        },
        WorkerCheck::CheckPane => if w.status != WorkerStatus::Working {
            o == WorkerOutcome::Pane(PaneAlert::Quiet)
        } else {
            match pane {
                None => o is PaneUnavailable,
                Some(c) => o == WorkerOutcome::Pane(observed_step(snaps, w, c@, now).1),
            }
        },
    }
}

impl MonitorState {
    /// One monitoring poll over `workers` (ids distinct, as the store keeps
    /// them): forget the memory of workers that are gone, then for each
    /// worker decide its check (see [`check_for`]); a crash is counted when
    /// the store took its Crashed status (`crash_marked[i]`) and planned
    /// with [`crash_plan_for`]; a working worker's captured pane
    /// (`panes[i]`, `None` when it could not be captured) is observed (see
    /// [`pane_step`]). `running[i]` tells whether its container runs.
    pub fn monitor_pass(
        &mut self,
        workers: &Vec<WorkerState>,
        suspending: &Vec<bool>,
        check_liveness: bool,
        running: &Vec<bool>,
        crash_marked: &Vec<bool>,
        panes: &Vec<Option<String>>,
        now: u64,
    ) -> (r: Vec<WorkerOutcome>)
        requires
            ids_distinct(workers@),
            suspending@.len() == workers@.len(),
            running@.len() == workers@.len(),
            crash_marked@.len() == workers@.len(),
            panes@.len() == workers@.len(),
            forall|i: int| 0 <= i < workers@.len() ==> retries_of(old(self).retry_view(), #[trigger] workers@[i].id@) < u32::MAX,
        ensures
            r@.len() == workers@.len(),
            forall|i: int|
                0 <= i < workers@.len() ==> outcome_for(
                    #[trigger] r@[i],
                    workers@[i],
                    suspending@[i],
                    check_liveness,
                    running@[i],
                    crash_marked@[i],
                    panes@[i],
                    old(self).snapshot_view(),
                    old(self).retry_view(),
                    now,
                ),
            forall|i: int|
                0 <= i < workers@.len() ==> assoc(final(self).snapshot_view(), #[trigger] workers@[i].id@) == if pane_observed(
                    workers@[i],
                    suspending@[i],
                    check_liveness,
                    running@[i],
                    panes@[i],
                ) {
                    Some(observed_step(old(self).snapshot_view(), workers@[i], panes@[i].unwrap()@, now).0)
                } else {
                    assoc(old(self).snapshot_view(), workers@[i].id@)
                },
            forall|i: int|
                0 <= i < workers@.len() ==> assoc(final(self).retry_view(), #[trigger] workers@[i].id@) == if crash_counted(
                    workers@[i],
                    suspending@[i],
                    check_liveness,
                    running@[i],
                    crash_marked@[i],
                ) {
                    Some((retries_of(old(self).retry_view(), workers@[i].id@) + 1) as u32)
                } else {
                    assoc(old(self).retry_view(), workers@[i].id@)
                },
            forall|k: Seq<char>|
                !(exists|i: int| 0 <= i < workers@.len() && #[trigger] workers@[i].id@ == k) ==> assoc(
                    final(self).snapshot_view(),
                    k,
                ) is None && assoc(final(self).retry_view(), k) is None,
    {
        let ghost old_snaps = self.snapshot_view();
        let ghost old_retries = self.retry_view();
        let mut ids: Vec<String> = Vec::new();
        let mut j: usize = 0;
        while j < workers.len()
            invariant
                j <= workers@.len(),
                ids@.len() == j,
                forall|m: int| 0 <= m < j ==> #[trigger] ids@[m]@ == workers@[m].id@,
            decreases workers@.len() - j,
        {
            ids.push(workers[j].id.clone());
            j = j + 1;
        }
        proof {
            assert forall|k: Seq<char>| views(ids@).contains(k) <==> exists|i: int|
                0 <= i < workers@.len() && #[trigger] workers@[i].id@ == k by {
                if views(ids@).contains(k) {
                    let q = choose|q: int| 0 <= q < views(ids@).len() && views(ids@)[q] == k;
                    assert(workers@[q].id@ == k);
                }
                if exists|i: int| 0 <= i < workers@.len() && #[trigger] workers@[i].id@ == k {
                    let i = choose|i: int| 0 <= i < workers@.len() && #[trigger] workers@[i].id@ == k;
                    assert(views(ids@)[i] == k);
                }
            }
        }
        self.retain_workers(&ids);
        let mut r: Vec<WorkerOutcome> = Vec::new();
        let mut i: usize = 0;
        while i < workers.len()
            invariant
                i <= workers@.len(),
                r@.len() == i,
                ids_distinct(workers@),
                suspending@.len() == workers@.len(),
                running@.len() == workers@.len(),
                crash_marked@.len() == workers@.len(),
                panes@.len() == workers@.len(),
                forall|m: int| 0 <= m < workers@.len() ==> retries_of(old_retries, #[trigger] workers@[m].id@) < u32::MAX,
                forall|m: int|
                    0 <= m < i ==> outcome_for(
                        #[trigger] r@[m],
                        workers@[m],
                        suspending@[m],
                        check_liveness,
                        running@[m],
                        crash_marked@[m],
                        panes@[m],
                        old_snaps,
                        old_retries,
                        now,
                    ),
                forall|m: int|
                    0 <= m < workers@.len() ==> assoc(self.snapshot_view(), #[trigger] workers@[m].id@) == if m < i
                        && pane_observed(workers@[m], suspending@[m], check_liveness, running@[m], panes@[m]) {
                        Some(observed_step(old_snaps, workers@[m], panes@[m].unwrap()@, now).0)
                    } else {
                        assoc(old_snaps, workers@[m].id@)
                    },
                forall|m: int|
                    0 <= m < workers@.len() ==> assoc(self.retry_view(), #[trigger] workers@[m].id@) == if m < i
                        && crash_counted(workers@[m], suspending@[m], check_liveness, running@[m], crash_marked@[m]) {
                        Some((retries_of(old_retries, workers@[m].id@) + 1) as u32)
                    } else {
                        assoc(old_retries, workers@[m].id@)
                    },
                forall|k: Seq<char>|
                    !(exists|m: int| 0 <= m < workers@.len() && #[trigger] workers@[m].id@ == k) ==> assoc(
                        self.snapshot_view(),
                        k,
                    ) is None && assoc(self.retry_view(), k) is None,
            decreases workers@.len() - i,
        {
            let w = &workers[i];
            let ghost id = w.id@;
            let ghost before_snaps = self.snapshot_view();
            let ghost before_retries = self.retry_view();
            assert(assoc(self.snapshot_view(), workers@[i as int].id@) == assoc(old_snaps, id));
            assert(assoc(self.retry_view(), workers@[i as int].id@) == assoc(old_retries, id));
            let outcome = match worker_check(w.status, suspending[i], check_liveness, running[i]) {
                WorkerCheck::Skip => WorkerOutcome::Skipped,
                WorkerCheck::Crash => if crash_marked[i] {
                    let plan = self.record_crash(w);
                    WorkerOutcome::Crashed(plan)
                } else {
                    WorkerOutcome::CrashNotRecorded
                },
                WorkerCheck::CheckPane => if w.status != WorkerStatus::Working {
                    WorkerOutcome::Pane(PaneAlert::Quiet)
                } else {
                    match &panes[i] {
                        None => WorkerOutcome::PaneUnavailable,
                        Some(c) => {
                            let a = self.observe_pane(w.id.as_str(), w.status, c.as_str(), now);
                            WorkerOutcome::Pane(a)
                        },
                    }
                },
            };
            proof {
                assert forall|m: int| 0 <= m < workers@.len() && m != i implies assoc(self.snapshot_view(), #[trigger] workers@[m].id@)
                    == assoc(before_snaps, workers@[m].id@) && assoc(self.retry_view(), workers@[m].id@) == assoc(before_retries, workers@[m].id@) by {
                    if m < i {
                        assert(workers@[m].id@ != id);
                    } else {
                        assert(workers@[i as int].id@ != workers@[m].id@);
                    }
                }
                assert forall|k: Seq<char>| !(exists|m: int| 0 <= m < workers@.len() && #[trigger] workers@[m].id@ == k) implies assoc(
                    self.snapshot_view(),
                    k,
                ) is None && assoc(self.retry_view(), k) is None by {
                    assert(k != workers@[i as int].id@);
                    assert(assoc(self.snapshot_view(), k) == assoc(before_snaps, k));
                    assert(assoc(self.retry_view(), k) == assoc(before_retries, k));
                }
            }
            r.push(outcome);
            i = i + 1;
        }
        r
    }
}

/// Whether `w` is a member supervised by `sup`.
pub open spec fn member_of(w: WorkerState, sup: Seq<char>) -> bool {
    w.role is Member && (w.supervisor_id matches Some(s) && s@ == sup)
}

/// Idle, crashed or waiting for a permission: not making progress.
pub open spec fn inactive(s: WorkerStatus) -> bool {
    s is Idle || s is Crashed || s is WaitingPermission
}

/// How many of `ws` are members supervised by `sup`.
pub open spec fn member_count(ws: Seq<WorkerState>, sup: Seq<char>) -> nat
    decreases ws.len(),
{
    if ws.len() == 0 {
        0
    } else {
        member_count(ws.drop_last(), sup) + if member_of(ws.last(), sup) {
            1nat
        } else {
            0nat
        }
    }
}

/// All members under `sup` are inactive while one of them still has
/// queued messages: work is stuck.
pub open spec fn idle_with_pending(ws: Seq<WorkerState>, pending: Seq<bool>, sup: Seq<char>) -> bool {
    &&& forall|i: int| 0 <= i < ws.len() && member_of(ws[i], sup) ==> inactive(ws[i].status)
    &&& exists|i: int| 0 <= i < ws.len() && member_of(ws[i], sup) && pending[i]
}

/// A supervisor whose members are all inactive though some have pending
/// messages, with the number of its members.
#[derive(Debug, Clone)]
pub struct IdleGroup {
    pub supervisor_id: String,
    pub member_count: usize,
}

/// Facts about the members under one supervisor.
fn group_facts(workers: &Vec<WorkerState>, pending: &Vec<bool>, sup: &str) -> (r: (bool, bool, usize))
    requires
        pending@.len() == workers@.len(),
        workers@.len() < usize::MAX,
    ensures
        r.0 == forall|i: int| 0 <= i < workers@.len() && member_of(workers@[i], sup@) ==> inactive(workers@[i].status),
        r.1 == exists|i: int| 0 <= i < workers@.len() && member_of(workers@[i], sup@) && pending@[i],
        r.2 == member_count(workers@, sup@),
{
    let mut all_inactive = true;
    let mut any_pending = false;
    let mut count: usize = 0;
    let mut i: usize = 0;
    while i < workers.len()
        invariant
            i <= workers@.len(),
            pending@.len() == workers@.len(),
            workers@.len() < usize::MAX,
            count <= i,
            all_inactive == forall|j: int| 0 <= j < i && member_of(workers@[j], sup@) ==> inactive(workers@[j].status),
            any_pending == exists|j: int| 0 <= j < i && member_of(workers@[j], sup@) && pending@[j],
            count == member_count(workers@.take(i as int), sup@),
        decreases workers@.len() - i,
    {
        let w = &workers[i];
        assert(workers@.take(i + 1).drop_last() =~= workers@.take(i as int));
        let is_member = match w.role {
            WorkerRole::Member => match &w.supervisor_id {
                Some(s) => same_text(s.as_str(), sup),
                None => false,
            },
            _ => false,
        };
        if is_member {
            count = count + 1;
            match w.status {
                WorkerStatus::Idle | WorkerStatus::Crashed | WorkerStatus::WaitingPermission => {},
                _ => {
                    all_inactive = false;
                },
            }
            if pending[i] {
                any_pending = true;
            }
        }
        i = i + 1;
    }
    assert(workers@.take(workers@.len() as int) =~= workers@);
    (all_inactive, any_pending, count)
}

/// The supervisors whose members are all inactive while some of them have
/// pending messages (`pending[i]` tells whether `workers[i]` has queued
/// messages), each once, in the order they first appear.
pub fn idle_groups_with_pending(workers: &Vec<WorkerState>, pending: &Vec<bool>) -> (r: Vec<IdleGroup>)
    requires
        pending@.len() == workers@.len(),
        workers@.len() < usize::MAX,
    ensures
        forall|j: int| 0 <= j < r@.len() ==> idle_with_pending(workers@, pending@, #[trigger] r@[j].supervisor_id@)
            && r@[j].member_count == member_count(workers@, r@[j].supervisor_id@),
        forall|j: int, k: int| 0 <= j < k < r@.len() ==> r@[j].supervisor_id@ != r@[k].supervisor_id@,
        forall|i: int, sup: Seq<char>| 0 <= i < workers@.len() && #[trigger] member_of(workers@[i], sup)
            && idle_with_pending(workers@, pending@, sup) ==> exists|j: int| 0 <= j < r@.len() && r@[j].supervisor_id@ == sup,
{
    let mut seen: Vec<String> = Vec::new();
    let mut r: Vec<IdleGroup> = Vec::new();
    let mut i: usize = 0;
    while i < workers.len()
        invariant
            i <= workers@.len(),
            pending@.len() == workers@.len(),
            workers@.len() < usize::MAX,
            forall|j: int| 0 <= j < r@.len() ==> idle_with_pending(workers@, pending@, #[trigger] r@[j].supervisor_id@)
                && r@[j].member_count == member_count(workers@, r@[j].supervisor_id@),
            forall|j: int, k: int| 0 <= j < k < r@.len() ==> r@[j].supervisor_id@ != r@[k].supervisor_id@,
            forall|j: int| 0 <= j < r@.len() ==> views(seen@).contains(#[trigger] r@[j].supervisor_id@),
            forall|q: int, sup: Seq<char>| 0 <= q < i && #[trigger] member_of(workers@[q], sup) ==> views(seen@).contains(sup),
            forall|sup: Seq<char>| #[trigger] views(seen@).contains(sup) && idle_with_pending(workers@, pending@, sup)
                ==> exists|j: int| 0 <= j < r@.len() && r@[j].supervisor_id@ == sup,
        decreases workers@.len() - i,
    {
        let w = &workers[i];
        let ghost seen_before = views(seen@);
        let is_member = match w.role {
            WorkerRole::Member => true,
            _ => false,
        };
        if is_member {
            if let Some(sup) = &w.supervisor_id {
                if !contains_string(&seen, sup.as_str()) {
                    let ghost old_seen = views(seen@);
                    let ghost old_r = r@;
                    let (all_inactive, any_pending, count) = group_facts(workers, pending, sup.as_str());
                    seen.push(sup.clone());
                    assert(views(seen@) =~= old_seen.push(sup@));
                    proof {
                        lemma_push_contains(old_seen, sup@);
                    }
                    if all_inactive && any_pending {
                        r.push(IdleGroup { supervisor_id: sup.clone(), member_count: count });
                        assert(r@[r@.len() - 1].supervisor_id@ == sup@);
                    }
                    assert forall|s: Seq<char>| #[trigger] views(seen@).contains(s) && idle_with_pending(workers@, pending@, s)
                        implies exists|j: int| 0 <= j < r@.len() && r@[j].supervisor_id@ == s by {
                        if s == sup@ {
                            assert(r@[r@.len() - 1].supervisor_id@ == sup@);
                        } else {
                            assert(old_seen.contains(s));
                            let j = choose|j: int| 0 <= j < old_r.len() && old_r[j].supervisor_id@ == s;
                            assert(r@[j] == old_r[j]);
                        }
                    }
                    assert forall|j: int| 0 <= j < r@.len() implies views(seen@).contains(#[trigger] r@[j].supervisor_id@) by {
                        if j < old_r.len() {
                            assert(r@[j] == old_r[j]);
                            assert(old_seen.contains(old_r[j].supervisor_id@));
                        }
                    }
                }
            }
        }
        assert forall|y: Seq<char>| seen_before.contains(y) implies #[trigger] views(seen@).contains(y) by {
            if views(seen@) != seen_before {
                lemma_push_contains(seen_before, views(seen@).last());
                assert(views(seen@) =~= seen_before.push(views(seen@).last()));
            }
        }
        assert forall|q: int, s: Seq<char>| 0 <= q < i + 1 && #[trigger] member_of(workers@[q], s) implies views(seen@).contains(s) by {
            if q < i {
                assert(seen_before.contains(s));
            } else {
                assert(w.supervisor_id matches Some(x) && x@ == s);
            }
        }
        i = i + 1;
    }
    r
}

/// Whether `s` is making progress (working or booting).
pub open spec fn progressing(s: WorkerStatus) -> bool {
    s is Working || s is Booting
}

/// Every worker slot is taken, jobs are waiting for one, and no worker is
/// making progress.
pub open spec fn deadlocked(active: usize, max_workers: usize, assignable: usize, ws: Seq<WorkerState>) -> bool {
    active >= max_workers && assignable > 0 && !(exists|i: int| 0 <= i < ws.len() && progressing(ws[i].status))
}

/// Detect a worker-limit deadlock (see [`deadlocked`]).
pub fn worker_limit_deadlock(active: usize, max_workers: usize, assignable: usize, workers: &Vec<WorkerState>) -> (b: bool)
    ensures
        b == deadlocked(active, max_workers, assignable, workers@),
{
    if active < max_workers || assignable == 0 {
        return false;
    }
    let mut i: usize = 0;
    while i < workers.len()
        invariant
            i <= workers@.len(),
            forall|j: int| 0 <= j < i ==> !progressing(workers@[j].status),
        decreases workers@.len() - i,
    {
        match workers[i].status {
            WorkerStatus::Working | WorkerStatus::Booting => {
                return false;
            },
            _ => {},
        }
        i = i + 1;
    }
    true
}

} // verus!
