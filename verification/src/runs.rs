//! Runs of workspace agents: terminal states, cancellation, execution leases
//! and the bookkeeping of their native approvals.
use vstd::prelude::*;
use crate::approvals::{NativeApprovalState, NativeApprovalStatus};
use crate::catalog::{AgentConfiguration, AgentProvider};
use crate::clock::now;
use crate::errors::{control_error, is_error, ControlError, DomainError, ErrorCode, Outcome};
use crate::permissions::{AgentMode, RunPermissionProfile};
use crate::settings::{setting_text, SettingsDocument};
use crate::json::opt_view;
use crate::text::{push_str, str_equals, texts};

use crate::events::{event_of, event_views, push_event, EventKind, PendingEvent};

verus! {

/// A Run as the control plane keeps it.
#[derive(Debug)]
pub struct RunRecord {
    pub id: String,
    pub project_id: String,
    pub session_id: Option<String>,
    /// `queued`, `running`, `cancelling`, or one of the terminal statuses.
    pub status: String,
    /// The lifecycle phase, such as `calling_agent`, `waiting_approval`, `integrating`.
    pub phase: Option<String>,
    /// The operation that holds the current execution lease.
    pub operation_id: Option<String>,
    /// Raised whenever ownership of the Run changes; older leases go stale.
    pub lease_epoch: u64,
    pub error: Option<ControlError>,
    pub permission_profile: RunPermissionProfile,
    /// The Agent the Run was started for, at its revision then.
    pub agent_id: String,
    pub agent_revision: u64,
    /// The Agent's model choice when the Run was created.
    pub config: AgentConfiguration,
    /// The provider catalog entry when the Run was created.
    pub provider: AgentProvider,
    /// What started the Run: `manual`, or `cron` with its schedule.
    pub trigger: String,
    pub cron_id: Option<String>,
    pub scheduled_at: Option<i64>,
    /// The Git commit and index tree a Codex workspace Run starts from.
    pub workspace_base_commit: Option<String>,
    pub workspace_base_index_tree: Option<String>,
    /// The Message the Run answers.
    pub base_message_id: String,
    /// The last Message the Run added, if any.
    pub last_message_id: Option<String>,
    pub native_approvals: Vec<NativeApprovalState>,
}

/// A Session as run bookkeeping sees it.
#[derive(Debug)]
pub struct SessionRecord {
    pub id: String,
    pub project_id: String,
    /// The Agent the Session talks to.
    pub agent_id: String,
    /// The name the user gave the Session (may be empty).
    pub name: String,
    /// The title shown for the Session, once one is set.
    pub title: Option<String>,
    pub description: String,
    /// Whether a title is being generated; a temporary title no longer applies then.
    pub title_generation_started: bool,
    pub archived: bool,
    /// The head of the Session's conversation.
    pub current_message_id: String,
    pub active_run_id: Option<String>,
    pub version: u64,
}

/// The durable journal of a workspace Run's result, fenced by its lease.
#[derive(Debug)]
pub struct RunJournal {
    pub run_id: String,
    pub operation_id: String,
    pub lease_epoch: u64,
    /// The Project branch the Run started from, when it was on one.
    pub baseline_ref: Option<String>,
    /// The checkpointed result of the agent, as its JSON text.
    pub result: Option<String>,
}

/// A registered Project.
#[derive(Debug)]
pub struct ProjectRecord {
    pub id: String,
    pub name: String,
    /// The canonical Git work tree of the Project.
    pub workdir: String,
    /// The system Message every conversation of the Project starts from.
    pub root_message_id: String,
    pub repo_url: Option<String>,
    /// The Git commit the Project was registered at.
    pub base_commit: String,
    /// The named Agent preset new Sessions of the Project use.
    pub default_agent_id: Option<String>,
    pub revision: u64,
}

/// The part of the control plane's working set that run commands read and change.
#[derive(Debug)]
pub struct WorkingSet {
    pub projects: Vec<ProjectRecord>,
    pub sessions: Vec<SessionRecord>,
    pub runs: Vec<RunRecord>,
    pub journals: Vec<RunJournal>,
}

/// The statuses after which a Run never changes again.
pub open spec fn terminal_status(s: Seq<char>) -> bool {
    s == "completed"@ || s == "failed"@ || s == "cancelled"@ || s == "limit_exceeded"@ || s
        == "interrupted"@
}

/// Whether a Run status is terminal.
pub fn is_terminal_workspace_status(status: &str) -> (terminal: bool)
    ensures
        terminal == terminal_status(status@),
{
    str_equals(status, "completed") || str_equals(status, "failed") || str_equals(
        status,
        "cancelled",
    ) || str_equals(status, "limit_exceeded") || str_equals(status, "interrupted")
}

/// `n + 1`, saturating at the largest epoch.
pub open spec fn next_epoch(n: u64) -> u64 {
    if n == u64::MAX {
        n
    } else {
        (n + 1) as u64
    }
}

/// `i` is the first Run with id `id`.
pub open spec fn first_run(runs: Seq<RunRecord>, id: Seq<char>, i: int) -> bool {
    0 <= i < runs.len() && runs[i].id@ == id && forall|j: int| 0 <= j < i ==> runs[j].id@ != id
}

/// Some Run has id `id`.
pub open spec fn has_run(runs: Seq<RunRecord>, id: Seq<char>) -> bool {
    exists|i: int| 0 <= i < runs.len() && runs[i].id@ == id
}

/// The position of the first Run with id `id`.
pub fn find_run(runs: &Vec<RunRecord>, id: &str) -> (found: Option<usize>)
    ensures
        match found {
            Some(i) => first_run(runs@, id@, i as int) && i == choose|c: int| first_run(runs@, id@, c),
            None => !has_run(runs@, id@),
        },
{
    let mut i: usize = 0;
    while i < runs.len()
        invariant
            i <= runs@.len(),
            forall|j: int| 0 <= j < i ==> runs@[j].id@ != id@,
        decreases runs.len() - i,
    {
        if str_equals(runs[i].id.as_str(), id) {
            proof {
                assert(first_run(runs@, id@, i as int));
                let c = choose|c: int| first_run(runs@, id@, c);
                assert(c == i) by {
                    if c < i {
                        assert(runs@[c].id@ != id@);
                    } else if c > i {
                        assert(runs@[i as int].id@ != id@);
                    }
                }
            }
            return Some(i);
        }
        i = i + 1;
    }
    None
}

/// What an approval becomes when pending approvals are settled with `status` at `t`.
pub open spec fn settled_approval(
    a: NativeApprovalState,
    status: NativeApprovalStatus,
    t: i64,
) -> NativeApprovalState {
    if a.status == NativeApprovalStatus::Pending {
        NativeApprovalState { status, decided_at: Some(t), ..a }
    } else {
        a
    }
}

/// `new` is `old` with every pending approval settled with `status` at `t`.
pub open spec fn settled_approvals(
    old: Seq<NativeApprovalState>,
    new: Seq<NativeApprovalState>,
    status: NativeApprovalStatus,
    t: i64,
) -> bool {
    new.len() == old.len() && forall|i: int|
        0 <= i < old.len() ==> #[trigger] new[i] == settled_approval(old[i], status, t)
}

/// Settles every pending approval of a Run with `status`, stamped with the
/// current time; decided approvals and the rest of the Run are unchanged.
pub fn expire_pending_native_approvals(run: &mut RunRecord, status: NativeApprovalStatus)
    ensures
        exists|t: i64|
            t >= 0 && settled_approvals(
                old(run).native_approvals@,
                final(run).native_approvals@,
                status,
                t,
            ),
        *final(run) == (RunRecord { native_approvals: final(run).native_approvals, ..*old(run) }),
{
    let decided_at = now();
    let ghost start = run.native_approvals@;
    let mut i: usize = 0;
    while i < run.native_approvals.len()
        invariant
            i <= run.native_approvals@.len(),
            run.native_approvals@.len() == start.len(),
            *run == (RunRecord { native_approvals: run.native_approvals, ..*old(run) }),
            start == old(run).native_approvals@,
            forall|j: int|
                0 <= j < i ==> #[trigger] run.native_approvals@[j] == settled_approval(
                    start[j],
                    status,
                    decided_at,
                ),
            forall|j: int| i <= j < start.len() ==> #[trigger] run.native_approvals@[j] == start[j],
        decreases start.len() - i,
    {
        if run.native_approvals[i].status == NativeApprovalStatus::Pending {
            run.native_approvals[i].status = status;
            run.native_approvals[i].decided_at = Some(decided_at);
        }
        i = i + 1;
    }
    proof {
        assert(settled_approvals(start, run.native_approvals@, status, decided_at));
    }
}

/// Session `s` is held by the Run `run_id` of Session `session_id`.
pub open spec fn holds_run(s: SessionRecord, session_id: Seq<char>, run_id: Seq<char>) -> bool {
    s.id@ == session_id && (s.active_run_id matches Some(a) && a@ == run_id)
}

/// `k` is the first Session held by the Run.
pub open spec fn first_holder(
    sessions: Seq<SessionRecord>,
    session_id: Seq<char>,
    run_id: Seq<char>,
    k: int,
) -> bool {
    0 <= k < sessions.len() && holds_run(sessions[k], session_id, run_id) && forall|j: int|
        0 <= j < k ==> !holds_run(#[trigger] sessions[j], session_id, run_id)
}

/// `new` is `old` after the Run lets go of its Session: the first Session
/// that the Run holds is freed and its version raised; nothing else changes.
pub open spec fn sessions_released(
    old: Seq<SessionRecord>,
    new: Seq<SessionRecord>,
    session_id: Option<String>,
    run_id: Seq<char>,
) -> bool {
    match session_id {
        None => new == old,
        Some(sid) => (exists|k: int|
            first_holder(old, sid@, run_id, k) && new == old.update(
                k,
                SessionRecord { active_run_id: None, version: (old[k].version + 1) as u64, ..old[k] },
            )) || (!(exists|k: int| first_holder(old, sid@, run_id, k)) && new == old),
    }
}

/// No Session version is at its upper bound.
pub open spec fn versions_below_max(sessions: Seq<SessionRecord>) -> bool {
    forall|k: int| 0 <= k < sessions.len() ==> (#[trigger] sessions[k]).version < u64::MAX
}

/// No Session that a Run holds is at its last version.
pub open spec fn held_versions_below_max(sessions: Seq<SessionRecord>) -> bool {
    forall|k: int|
        0 <= k < sessions.len() && (#[trigger] sessions[k]).active_run_id.is_some() ==> sessions[k].version
            < u64::MAX
}

fn holds(s: &SessionRecord, session_id: &str, run_id: &str) -> (held: bool)
    ensures
        held == holds_run(*s, session_id@, run_id@),
{
    str_equals(s.id.as_str(), session_id) && match &s.active_run_id {
        Some(a) => str_equals(a.as_str(), run_id),
        None => false,
    }
}

/// Frees the Session that a Run holds (see `released_sessions`).
pub fn release_session(sessions: &mut Vec<SessionRecord>, session_id: &Option<String>, run_id: &str)
    requires
        held_versions_below_max(old(sessions)@),
    ensures
        sessions_released(old(sessions)@, final(sessions)@, *session_id, run_id@),
{
    let sid = match session_id {
        None => return,
        Some(sid) => sid,
    };
    let mut k: usize = 0;
    while k < sessions.len()
        invariant
            k <= sessions@.len(),
            sessions@ == old(sessions)@,
            *session_id == Some(*sid),
            held_versions_below_max(sessions@),
            forall|j: int| 0 <= j < k ==> !holds_run(#[trigger] sessions@[j], sid@, run_id@),
        decreases sessions.len() - k,
    {
        if holds(&sessions[k], sid.as_str(), run_id) {
            proof {
                assert(first_holder(sessions@, sid@, run_id@, k as int));
            }
            let ghost before = sessions@;
            sessions[k].active_run_id = None;
            sessions[k].version = sessions[k].version + 1;
            proof {
                assert(first_holder(before, sid@, run_id@, k as int));
                assert(sessions@ =~= before.update(
                    k as int,
                    SessionRecord {
                        active_run_id: None,
                        version: (before[k as int].version + 1) as u64,
                        ..before[k as int]
                    },
                ));
            }
            return;
        }
        k = k + 1;
    }
    proof {
        assert(!exists|c: int| first_holder(old(sessions)@, sid@, run_id@, c));
    }
}

/// `k` is the first journal of the Run `run_id`.
pub open spec fn first_journal(journals: Seq<RunJournal>, run_id: Seq<char>, k: int) -> bool {
    0 <= k < journals.len() && journals[k].run_id@ == run_id && forall|j: int|
        0 <= j < k ==> (#[trigger] journals[j]).run_id@ != run_id
}

/// The journals after the Run's journal is moved to `epoch`.
pub open spec fn fenced_journals(journals: Seq<RunJournal>, run_id: Seq<char>, epoch: u64) -> Seq<
    RunJournal,
> {
    if exists|k: int| first_journal(journals, run_id, k) {
        let k = choose|k: int| first_journal(journals, run_id, k);
        journals.update(k, RunJournal { lease_epoch: epoch, ..journals[k] })
    } else {
        journals
    }
}

/// Moves the Run's result journal to the Run's new lease epoch.
pub fn fence_journal(journals: &mut Vec<RunJournal>, run_id: &str, epoch: u64)
    ensures
        final(journals)@ == fenced_journals(old(journals)@, run_id@, epoch),
{
    let mut k: usize = 0;
    while k < journals.len()
        invariant
            k <= journals@.len(),
            journals@ == old(journals)@,
            forall|j: int| 0 <= j < k ==> (#[trigger] journals@[j]).run_id@ != run_id@,
        decreases journals.len() - k,
    {
        if str_equals(journals[k].run_id.as_str(), run_id) {
            proof {
                assert(first_journal(journals@, run_id@, k as int));
                let c = choose|c: int| first_journal(journals@, run_id@, c);
                assert(c == k) by {
                    if c < k {
                        assert(journals@[c].run_id@ != run_id@);
                    } else if c > k {
                        assert(journals@[k as int].run_id@ != run_id@);
                    }
                }
            }
            journals[k].lease_epoch = epoch;
            return;
        }
        k = k + 1;
    }
    proof {
        assert(!exists|c: int| first_journal(old(journals)@, run_id@, c));
    }
}

/// The error of an unknown Run.
pub open spec fn run_not_found_error() -> (ErrorCode, Seq<char>, bool) {
    (ErrorCode::InvalidRun, "run not found"@, false)
}

/// `phase` is the phase named `name`.
pub open spec fn phase_is(phase: Option<String>, name: Seq<char>) -> bool {
    phase matches Some(p) && p@ == name
}

/// Whether a Run may be cancelled, and which one: the first Run with the
/// id, unless it is terminal or its workspace integration has started.
pub open spec fn cancel_check(state: WorkingSet, run_id: Seq<char>) -> Outcome<int> {
    if !has_run(state.runs@, run_id) {
        Err(run_not_found_error())
    } else {
        let i = choose|i: int| first_run(state.runs@, run_id, i);
        if terminal_status(state.runs@[i].status@) {
            Err((ErrorCode::RunAlreadyTerminal, "run is already terminal"@, false))
        } else if phase_is(state.runs@[i].phase, "integrating"@) {
            Err(
                (
                    ErrorCode::RunAlreadyTerminal,
                    "workspace integration has started; cancellation cannot replace its durable result"@,
                    false,
                ),
            )
        } else {
            Ok(i)
        }
    }
}

/// `new` is the Run `old` settled as `status` at `t`: its lease epoch raised,
/// phase `terminal`, the error recorded, and its pending approvals settled.
pub open spec fn settled_run(
    old: RunRecord,
    new: RunRecord,
    status: Seq<char>,
    error: (ErrorCode, Seq<char>, bool),
    approvals: NativeApprovalStatus,
    t: i64,
) -> bool {
    &&& new.id == old.id
    &&& new.project_id == old.project_id
    &&& new.session_id == old.session_id
    &&& new.operation_id == old.operation_id
    &&& new.permission_profile == old.permission_profile
    &&& new.status@ == status
    &&& phase_is(new.phase, "terminal"@)
    &&& (new.error matches Some(e) && is_error(e, error.0, error.1, error.2))
    &&& new.lease_epoch == next_epoch(old.lease_epoch)
    &&& settled_approvals(old.native_approvals@, new.native_approvals@, approvals, t)
}

/// `new` is `old` after settling its Run `i` (see `settled_run`): its journal
/// moves to the new epoch, its Session is released, nothing else changes.
pub open spec fn settled_in(
    old: WorkingSet,
    new: WorkingSet,
    i: int,
    status: Seq<char>,
    error: (ErrorCode, Seq<char>, bool),
    approvals: NativeApprovalStatus,
) -> bool {
    &&& 0 <= i < old.runs@.len()
    &&& new.runs@.len() == old.runs@.len()
    &&& forall|j: int| 0 <= j < old.runs@.len() && j != i ==> #[trigger] new.runs@[j] == old.runs@[j]
    &&& exists|t: i64|
        t >= 0 && settled_run(old.runs@[i], new.runs@[i], status, error, approvals, t)
    &&& new.projects == old.projects
    &&& new.journals@ == fenced_journals(old.journals@, old.runs@[i].id@, new.runs@[i].lease_epoch)
    &&& sessions_released(old.sessions@, new.sessions@, old.runs@[i].session_id, old.runs@[i].id@)
}

/// Settles Run `index` (see `settled_in`).
fn settle_run(
    state: &mut WorkingSet,
    index: usize,
    status: &str,
    error: ControlError,
    approvals: NativeApprovalStatus,
)
    requires
        index < old(state).runs@.len(),
        held_versions_below_max(old(state).sessions@),
    ensures
        settled_in(
            *old(state),
            *final(state),
            index as int,
            status@,
            (error.code, error.message@, error.retryable),
            approvals,
        ),
{
    let epoch = if state.runs[index].lease_epoch == u64::MAX {
        u64::MAX
    } else {
        state.runs[index].lease_epoch + 1
    };
    let ghost old_run = state.runs@[index as int];
    state.runs[index].lease_epoch = epoch;
    fence_journal(&mut state.journals, state.runs[index].id.as_str(), epoch);
    state.runs[index].status = String::from_str(status);
    state.runs[index].phase = Some(String::from_str("terminal"));
    state.runs[index].error = Some(error);
    let ghost mid = state.runs@[index as int];
    expire_pending_native_approvals(&mut state.runs[index], approvals);
    let ghost after = state.runs@[index as int];
    release_session(&mut state.sessions, &state.runs[index].session_id, state.runs[index].id.as_str());
    proof {
        let t = choose|t: i64| t >= 0 && settled_approvals(mid.native_approvals@, after.native_approvals@, approvals, t);
        assert(settled_run(old_run, after, status@, (error.code, error.message@, error.retryable), approvals, t));
    }
}

/// What cancelling a Run does (see `cancel_run`).
pub open spec fn run_cancelled(
    old_state: WorkingSet,
    new_state: WorkingSet,
    run_id: Seq<char>,
    result: Result<usize, ControlError>,
) -> bool {
    match (result, cancel_check(old_state, run_id)) {
        (Ok(i), Ok(j)) => i == j && settled_in(
            old_state,
            new_state,
            i as int,
            "cancelled"@,
            (ErrorCode::RunCancelled, "run was cancelled"@, false),
            NativeApprovalStatus::Cancelled,
        ),
        (Err(e), Err(spec)) => is_error(e, spec.0, spec.1, spec.2) && new_state == old_state,
        _ => false,
    }
}

/// The events a cancellation queues: one `run.updated` about the Run when
/// it is cancelled, none when it is refused.
pub open spec fn cancel_events(run_id: Seq<char>, result: Result<usize, ControlError>) -> Seq<
    (Seq<char>, Option<Seq<char>>),
> {
    if result is Ok {
        seq![event_of(EventKind::RunUpdated, Some(run_id))]
    } else {
        Seq::empty()
    }
}

/// Cancels a Run that is neither terminal nor integrating (see
/// `cancel_check`): it becomes `cancelled` with a `RunCancelled` error, its
/// lease epoch is raised so that every outstanding lease goes stale, and its
/// pending approvals are cancelled. Returns the Run's position.
pub fn cancel_run(state: &mut WorkingSet, run_id: &str, outbox: &mut Vec<PendingEvent>) -> (result: Result<usize, ControlError>)
    requires
        held_versions_below_max(old(state).sessions@),
    ensures
        event_views(final(outbox)@) == event_views(old(outbox)@) + cancel_events(run_id@, result),
        run_cancelled(
            *old(state),
            *final(state),
            run_id@,
            result,
        ),
{
    let index = match find_run(&state.runs, run_id) {
        Some(i) => i,
        None => return Err(control_error(ErrorCode::InvalidRun, "run not found", false)),
    };
    if is_terminal_workspace_status(state.runs[index].status.as_str()) {
        return Err(control_error(ErrorCode::RunAlreadyTerminal, "run is already terminal", false));
    }
    let integrating = match &state.runs[index].phase {
        Some(p) => str_equals(p.as_str(), "integrating"),
        None => false,
    };
    if integrating {
        return Err(
            control_error(
                ErrorCode::RunAlreadyTerminal,
                "workspace integration has started; cancellation cannot replace its durable result",
                false,
            ),
        );
    }
    let error = control_error(ErrorCode::RunCancelled, "run was cancelled", false);
    settle_run(state, index, "cancelled", error, NativeApprovalStatus::Cancelled);
    push_event(outbox, EventKind::RunUpdated, Some(String::from_str(run_id)));
    Ok(index)
}

/// The execution lease a workspace executor holds on a Run.
#[derive(Debug)]
pub struct ExecutionLease {
    pub run_id: String,
    pub operation_id: String,
    pub lease_epoch: u64,
}

/// The error of a check made while recovering or finishing a workspace Run.
pub open spec fn recovery_error_of(message: Seq<char>) -> (ErrorCode, Seq<char>, bool) {
    (ErrorCode::RunRecoveryFailed, message, false)
}

/// The lease is the Run's current one: same operation, same epoch.
pub open spec fn lease_current(run: RunRecord, lease: ExecutionLease) -> bool {
    (run.operation_id matches Some(op) && op@ == lease.operation_id@) && run.lease_epoch
        == lease.lease_epoch
}

/// Refuses a lease that is not the Run's current one.
pub fn ensure_current_lease(run: &RunRecord, lease: &ExecutionLease) -> (result: Result<
    (),
    ControlError,
>)
    ensures
        lease_current(*run, *lease) ==> result is Ok,
        !lease_current(*run, *lease) ==> (result matches Err(e) && is_error(
            e,
            ErrorCode::RunRecoveryFailed,
            "stale workspace execution lease"@,
            false,
        )),
{
    let same_operation = match &run.operation_id {
        Some(op) => str_equals(op.as_str(), lease.operation_id.as_str()),
        None => false,
    };
    if !same_operation || run.lease_epoch != lease.lease_epoch {
        return Err(
            control_error(ErrorCode::RunRecoveryFailed, "stale workspace execution lease", false),
        );
    }
    Ok(())
}

/// The journal is fenced by the lease: same operation, same epoch.
pub open spec fn journal_current(journal: RunJournal, lease: ExecutionLease) -> bool {
    journal.operation_id@ == lease.operation_id@ && journal.lease_epoch == lease.lease_epoch
}

/// Refuses a lease that does not fence the Run's result journal.
pub fn ensure_journal_lease(journal: &RunJournal, lease: &ExecutionLease) -> (result: Result<
    (),
    ControlError,
>)
    ensures
        journal_current(*journal, *lease) ==> result is Ok,
        !journal_current(*journal, *lease) ==> (result matches Err(e) && is_error(
            e,
            ErrorCode::RunRecoveryFailed,
            "stale workspace result journal lease"@,
            false,
        )),
{
    if !str_equals(journal.operation_id.as_str(), lease.operation_id.as_str()) || journal.lease_epoch
        != lease.lease_epoch {
        return Err(
            control_error(
                ErrorCode::RunRecoveryFailed,
                "stale workspace result journal lease",
                false,
            ),
        );
    }
    Ok(())
}

/// Some journal belongs to the Run `run_id`.
pub open spec fn has_journal(journals: Seq<RunJournal>, run_id: Seq<char>) -> bool {
    exists|k: int| 0 <= k < journals.len() && journals[k].run_id@ == run_id
}

/// The position of the Run's journal.
pub fn find_journal(journals: &Vec<RunJournal>, run_id: &str) -> (found: Option<usize>)
    ensures
        match found {
            Some(k) => first_journal(journals@, run_id@, k as int) && k == choose|c: int|
                first_journal(journals@, run_id@, c),
            None => !has_journal(journals@, run_id@),
        },
{
    let mut k: usize = 0;
    while k < journals.len()
        invariant
            k <= journals@.len(),
            forall|j: int| 0 <= j < k ==> (#[trigger] journals@[j]).run_id@ != run_id@,
        decreases journals.len() - k,
    {
        if str_equals(journals[k].run_id.as_str(), run_id) {
            proof {
                assert(first_journal(journals@, run_id@, k as int));
                let c = choose|c: int| first_journal(journals@, run_id@, c);
                assert(c == k) by {
                    if c < k {
                        assert(journals@[c].run_id@ != run_id@);
                    } else if c > k {
                        assert(journals@[k as int].run_id@ != run_id@);
                    }
                }
            }
            return Some(k);
        }
        k = k + 1;
    }
    None
}

/// Whether the holder of `lease` may start integrating the Run's workspace
/// result: the Run exists, the lease is current for the Run and its journal,
/// the Run is `settling` (not terminal) with a checkpointed result. On
/// success, the Run's position and whether it was already integrating.
pub open spec fn integration_check(state: WorkingSet, lease: ExecutionLease) -> Outcome<(int, bool)> {
    if !has_run(state.runs@, lease.run_id@) {
        Err(run_not_found_error())
    } else {
        let i = choose|i: int| first_run(state.runs@, lease.run_id@, i);
        let run = state.runs@[i];
        if !lease_current(run, lease) {
            Err(recovery_error_of("stale workspace execution lease"@))
        } else if !has_journal(state.journals@, lease.run_id@) {
            Err(recovery_error_of("workspace result journal is missing"@))
        } else {
            let journal = state.journals@[choose|k: int|
                first_journal(state.journals@, lease.run_id@, k)];
            if !journal_current(journal, lease) {
                Err(recovery_error_of("stale workspace result journal lease"@))
            } else if terminal_status(run.status@) {
                Err(
                    (
                        ErrorCode::RunAlreadyTerminal,
                        "workspace Run became terminal before integration"@,
                        false,
                    ),
                )
            } else if run.status@ != "settling"@ || journal.result.is_none() {
                Err(recovery_error_of("workspace integration requires a durable result checkpoint"@))
            } else {
                Ok((i, phase_is(run.phase, "integrating"@)))
            }
        }
    }
}

/// `new` is `old` with Run `i` integrating: its phase is `integrating`, its
/// error cleared, and nothing else changes.
pub open spec fn integration_claimed(old: WorkingSet, new: WorkingSet, i: int) -> bool {
    &&& new.runs@ == old.runs@.update(
        i,
        RunRecord { phase: new.runs@[i].phase, error: None, ..old.runs@[i] },
    )
    &&& phase_is(new.runs@[i].phase, "integrating"@)
    &&& new.projects == old.projects
    &&& new.sessions == old.sessions
    &&& new.journals == old.journals
}

/// Claims the workspace integration of a Run for the holder of `lease` (see
/// `integration_check`): the Run's phase becomes `integrating` and its error
/// is cleared; a Run already integrating is left as it is. Returns the Run's
/// position.
pub fn claim_workspace_integration(state: &mut WorkingSet, lease: &ExecutionLease) -> (result: Result<
    usize,
    ControlError,
>)
    ensures
        match (result, integration_check(*old(state), *lease)) {
            (Ok(i), Ok((j, already))) => i == j && if already {
                *final(state) == *old(state)
            } else {
                integration_claimed(*old(state), *final(state), i as int)
            },
            (Err(e), Err(spec)) => is_error(e, spec.0, spec.1, spec.2) && *final(state) == *old(state),
            _ => false,
        },
{
    let i = match find_run(&state.runs, lease.run_id.as_str()) {
        Some(i) => i,
        None => return Err(control_error(ErrorCode::InvalidRun, "run not found", false)),
    };
    match ensure_current_lease(&state.runs[i], lease) {
        Ok(()) => {},
        Err(e) => return Err(e),
    }
    let k = match find_journal(&state.journals, lease.run_id.as_str()) {
        Some(k) => k,
        None => {
            return Err(
                control_error(
                    ErrorCode::RunRecoveryFailed,
                    "workspace result journal is missing",
                    false,
                ),
            );
        },
    };
    match ensure_journal_lease(&state.journals[k], lease) {
        Ok(()) => {},
        Err(e) => return Err(e),
    }
    if is_terminal_workspace_status(state.runs[i].status.as_str()) {
        return Err(
            control_error(
                ErrorCode::RunAlreadyTerminal,
                "workspace Run became terminal before integration",
                false,
            ),
        );
    }
    if !str_equals(state.runs[i].status.as_str(), "settling") || state.journals[k].result.is_none() {
        return Err(
            control_error(
                ErrorCode::RunRecoveryFailed,
                "workspace integration requires a durable result checkpoint",
                false,
            ),
        );
    }
    let integrating = match &state.runs[i].phase {
        Some(p) => str_equals(p.as_str(), "integrating"),
        None => false,
    };
    if integrating {
        return Ok(i);
    }
    state.runs[i].phase = Some(String::from_str("integrating"));
    state.runs[i].error = None;
    proof {
        assert(state.runs@ =~= old(state).runs@.update(
            i as int,
            RunRecord { phase: state.runs@[i as int].phase, error: None, ..old(state).runs@[i as int] },
        ));
        assert(integration_claimed(*old(state), *state, i as int));
    }
    Ok(i)
}

/// What startup recovery does with an interrupted Run.
#[derive(Clone, Copy, Debug, PartialEq, Eq, Structural)]
pub enum RecoveryPolicy {
    ResumeSafe,
    Ask,
    Fail,
}

/// The policy the `runtime.recovery` setting names: `ask`, `fail`, or
/// resuming what is safe to resume for anything else.
pub open spec fn recovery_policy_of(settings: SettingsDocument) -> RecoveryPolicy {
    match setting_text(settings, "runtime.recovery"@) {
        Some(t) => if t == "ask"@ {
            RecoveryPolicy::Ask
        } else if t == "fail"@ {
            RecoveryPolicy::Fail
        } else {
            RecoveryPolicy::ResumeSafe
        },
        None => RecoveryPolicy::ResumeSafe,
    }
}

/// The recovery policy of the settings (see `recovery_policy_of`).
pub fn recovery_policy(settings: &SettingsDocument) -> (policy: RecoveryPolicy)
    ensures
        policy == recovery_policy_of(*settings),
{
    match settings.get_text("runtime.recovery") {
        Some(t) => if str_equals(t.as_str(), "ask") {
            RecoveryPolicy::Ask
        } else if str_equals(t.as_str(), "fail") {
            RecoveryPolicy::Fail
        } else {
            RecoveryPolicy::ResumeSafe
        },
        None => RecoveryPolicy::ResumeSafe,
    }
}

/// The failures that belong to one Project or Run and interrupt only that
/// Run during startup recovery, rather than stopping recovery as a whole.
pub open spec fn local_recovery_failure(code: ErrorCode) -> bool {
    code == ErrorCode::ProjectWorkspaceBusy || code == ErrorCode::ProjectPathNotFound || code
        == ErrorCode::ProjectPathNotDirectory || code == ErrorCode::ProjectGitInitFailed || code
        == ErrorCode::ProjectGitDirty || code == ErrorCode::ProjectGitHeadUnavailable || code
        == ErrorCode::InvalidProject || code == ErrorCode::InvalidConfiguration || code
        == ErrorCode::RunNotResumable
}

/// Whether a recovery failure is local to its Run (see `local_recovery_failure`).
pub fn is_local_recovery_failure(code: ErrorCode) -> (local: bool)
    ensures
        local == local_recovery_failure(code),
{
    match code {
        ErrorCode::ProjectWorkspaceBusy | ErrorCode::ProjectPathNotFound
        | ErrorCode::ProjectPathNotDirectory | ErrorCode::ProjectGitInitFailed
        | ErrorCode::ProjectGitDirty | ErrorCode::ProjectGitHeadUnavailable
        | ErrorCode::InvalidProject | ErrorCode::InvalidConfiguration
        | ErrorCode::RunNotResumable => true,
        _ => false,
    }
}

/// The error a Run settled during recovery records: `RunCancelled` for a
/// Run that ends cancelled, `RunRecoveryFailed` otherwise.
pub open spec fn recovered_error(status: Seq<char>, message: Seq<char>) -> (ErrorCode, Seq<char>, bool) {
    (
        if status == "cancelled"@ {
            ErrorCode::RunCancelled
        } else {
            ErrorCode::RunRecoveryFailed
        },
        message,
        false,
    )
}

/// Settles Run `index` during startup recovery as `status` with `message`:
/// its lease epoch is raised, its pending approvals expire, its journal is
/// fenced and its Session released (see `settled_in`).
pub fn settle_recovered_run(state: &mut WorkingSet, index: usize, status: &str, message: &str)
    requires
        index < old(state).runs@.len(),
        held_versions_below_max(old(state).sessions@),
    ensures
        settled_in(
            *old(state),
            *final(state),
            index as int,
            status@,
            recovered_error(status@, message@),
            NativeApprovalStatus::Expired,
        ),
{
    let code = if str_equals(status, "cancelled") {
        ErrorCode::RunCancelled
    } else {
        ErrorCode::RunRecoveryFailed
    };
    let error = control_error(code, message, false);
    settle_run(state, index, status, error, NativeApprovalStatus::Expired);
}

/// The ids of the Runs that startup recovery must look at: every Run that is
/// not terminal, in order.
pub open spec fn recoverable_ids(runs: Seq<RunRecord>) -> Seq<Seq<char>>
    decreases runs.len(),
{
    if runs.len() == 0 {
        Seq::empty()
    } else if terminal_status(runs.last().status@) {
        recoverable_ids(runs.drop_last())
    } else {
        recoverable_ids(runs.drop_last()).push(runs.last().id@)
    }
}

/// Read-only startup scan result. Run ownership changes only after the
/// supervisor acquires the matching Project workspace lease.
#[derive(Debug)]
pub struct StartupRecoveryPlan {
    run_ids: Vec<String>,
}

impl StartupRecoveryPlan {
    /// The ids the plan holds.
    pub closed spec fn ids(&self) -> Seq<Seq<char>> {
        texts(self.run_ids@)
    }

    /// The plan for a set of Runs (see `recoverable_ids`).
    pub fn from_runs(runs: &Vec<RunRecord>) -> (plan: Self)
        ensures
            plan.ids() == recoverable_ids(runs@),
    {
        let mut run_ids: Vec<String> = Vec::new();
        let mut i: usize = 0;
        while i < runs.len()
            invariant
                i <= runs@.len(),
                texts(run_ids@) == recoverable_ids(runs@.take(i as int)),
            decreases runs.len() - i,
        {
            let ghost before = run_ids@;
            proof {
                assert(runs@.take(i + 1).drop_last() =~= runs@.take(i as int));
            }
            if !is_terminal_workspace_status(runs[i].status.as_str()) {
                run_ids.push(runs[i].id.clone());
                proof {
                    assert(texts(run_ids@) =~= texts(before).push(runs@[i as int].id@));
                }
            }
            i = i + 1;
        }
        proof {
            assert(runs@.take(runs@.len() as int) =~= runs@);
        }
        StartupRecoveryPlan { run_ids }
    }

    /// The number of Runs to recover.
    pub fn len(&self) -> (n: usize)
        ensures
            n == self.ids().len(),
    {
        self.run_ids.len()
    }

    /// Whether no Run needs recovery.
    pub fn is_empty(&self) -> (empty: bool)
        ensures
            empty == (self.ids().len() == 0),
    {
        self.run_ids.len() == 0
    }

    /// The ids of the Runs to recover, in order.
    pub fn run_ids(&self) -> (ids: &Vec<String>)
        ensures
            texts(ids@) == self.ids(),
    {
        &self.run_ids
    }
}

/// Where the finalization of a workspace Run stands.
#[derive(Clone, Copy, Debug, PartialEq, Eq, Structural)]
pub enum WorkspaceFinalizationDecision {
    Open,
    Integrating,
    Cancelled,
}

/// What beginning the integration of a workspace result does: nothing more
/// when it has begun; refused with `RunCancelled` when cancellation came
/// first; refused when no durable execution lease is bound; otherwise the
/// integration must be claimed (see `claim_workspace_integration`), after
/// which the decision becomes `Integrating`.
pub open spec fn integration_start(
    decision: WorkspaceFinalizationDecision,
    cancelled: bool,
    lease_bound: bool,
) -> Outcome<bool> {
    match decision {
        WorkspaceFinalizationDecision::Integrating => Ok(false),
        WorkspaceFinalizationDecision::Open => if cancelled {
            Err((ErrorCode::RunCancelled, "run cancellation won before workspace integration"@, false))
        } else if !lease_bound {
            Err(recovery_error_of("workspace integration has no durable execution lease"@))
        } else {
            Ok(true)
        },
        WorkspaceFinalizationDecision::Cancelled => Err(
            (ErrorCode::RunCancelled, "run cancellation won before workspace integration"@, false),
        ),
    }
}

/// Decides how the integration of a workspace result begins (see
/// `integration_start`); `Ok(true)` asks for the integration claim.
pub fn begin_integration(
    decision: WorkspaceFinalizationDecision,
    cancelled: bool,
    lease_bound: bool,
) -> (result: Result<bool, ControlError>)
    ensures
        match (result, integration_start(decision, cancelled, lease_bound)) {
            (Ok(a), Ok(b)) => a == b,
            (Err(e), Err(spec)) => is_error(e, spec.0, spec.1, spec.2),
            _ => false,
        },
{
    match decision {
        WorkspaceFinalizationDecision::Integrating => Ok(false),
        WorkspaceFinalizationDecision::Open => if cancelled {
            Err(
                control_error(
                    ErrorCode::RunCancelled,
                    "run cancellation won before workspace integration",
                    false,
                ),
            )
        } else if !lease_bound {
            Err(
                control_error(
                    ErrorCode::RunRecoveryFailed,
                    "workspace integration has no durable execution lease",
                    false,
                ),
            )
        } else {
            Ok(true)
        },
        WorkspaceFinalizationDecision::Cancelled => Err(
            control_error(
                ErrorCode::RunCancelled,
                "run cancellation won before workspace integration",
                false,
            ),
        ),
    }
}

/// When some Run has an id, a first one has it.
pub proof fn lemma_first_run_exists(runs: Seq<RunRecord>, id: Seq<char>)
    requires
        has_run(runs, id),
    ensures
        exists|c: int| first_run(runs, id, c),
{
    let w = choose|w: int| 0 <= w < runs.len() && runs[w].id@ == id;
    lemma_first_run_below(runs, id, w);
}

proof fn lemma_first_run_below(runs: Seq<RunRecord>, id: Seq<char>, w: int)
    requires
        0 <= w < runs.len(),
        runs[w].id@ == id,
    ensures
        exists|c: int| first_run(runs, id, c),
    decreases w,
{
    if forall|j: int| 0 <= j < w ==> runs[j].id@ != id {
        assert(first_run(runs, id, w));
    } else {
        let j = choose|j: int| 0 <= j < w && runs[j].id@ == id;
        lemma_first_run_below(runs, id, j);
    }
}

/// The first Run with an id is the one `choose` names.
pub proof fn lemma_first_run_unique(runs: Seq<RunRecord>, id: Seq<char>, i: int)
    requires
        first_run(runs, id, i),
    ensures
        has_run(runs, id),
        (choose|c: int| first_run(runs, id, c)) == i,
{
    let c = choose|c: int| first_run(runs, id, c);
    assert(first_run(runs, id, c));
    if c < i {
        assert(runs[c].id@ != id);
    } else if c > i {
        assert(runs[i].id@ != id);
    }
}

/// Once a Run is cancelled, every execution lease that was current before
/// goes stale: the Run's lease epoch has moved on (unless it had reached its
/// upper bound), and so has the epoch of its result journal.
pub proof fn lemma_cancel_fences_leases(
    old: WorkingSet,
    new: WorkingSet,
    i: int,
    lease: ExecutionLease,
)
    requires
        settled_in(
            old,
            new,
            i,
            "cancelled"@,
            (ErrorCode::RunCancelled, "run was cancelled"@, false),
            NativeApprovalStatus::Cancelled,
        ),
        lease_current(old.runs@[i], lease),
        old.runs@[i].lease_epoch < u64::MAX,
    ensures
        !lease_current(new.runs@[i], lease),
        forall|k: int|
            0 <= k < new.journals@.len() && (#[trigger] new.journals@[k]).run_id@ == old.runs@[i].id@
                && first_journal(new.journals@, old.runs@[i].id@, k) ==> !journal_current(
                new.journals@[k],
                lease,
            ),
{
    let t = choose|t: i64|
        t >= 0 && settled_run(
            old.runs@[i],
            new.runs@[i],
            "cancelled"@,
            (ErrorCode::RunCancelled, "run was cancelled"@, false),
            NativeApprovalStatus::Cancelled,
            t,
        );
    assert(new.runs@[i].lease_epoch == old.runs@[i].lease_epoch + 1);
    let id = old.runs@[i].id@;
    assert forall|k: int|
        0 <= k < new.journals@.len() && (#[trigger] new.journals@[k]).run_id@ == id && first_journal(
            new.journals@,
            id,
            k,
        ) implies !journal_current(new.journals@[k], lease) by {
        if exists|c: int| first_journal(old.journals@, id, c) {
            let c = choose|c: int| first_journal(old.journals@, id, c);
            assert(new.journals@ == old.journals@.update(
                c,
                RunJournal { lease_epoch: new.runs@[i].lease_epoch, ..old.journals@[c] },
            ));
            if k < c {
                assert(new.journals@[k] == old.journals@[k]);
                assert(old.journals@[k].run_id@ != id);
            } else if k > c {
                assert(new.journals@[c].run_id@ == id);
            }
        } else {
            assert(new.journals@ == old.journals@);
            assert(first_journal(old.journals@, id, k));
        }
    }
}

/// A cancelled Run cannot be cancelled again: the second request is
/// refused because the Run is terminal.
pub proof fn lemma_cancel_is_final(old: WorkingSet, new: WorkingSet, run_id: Seq<char>, i: int)
    requires
        cancel_check(old, run_id) == Ok::<int, (ErrorCode, Seq<char>, bool)>(i),
        settled_in(
            old,
            new,
            i,
            "cancelled"@,
            (ErrorCode::RunCancelled, "run was cancelled"@, false),
            NativeApprovalStatus::Cancelled,
        ),
    ensures
        cancel_check(new, run_id) == Err::<int, (ErrorCode, Seq<char>, bool)>(
            (ErrorCode::RunAlreadyTerminal, "run is already terminal"@, false),
        ),
{
    lemma_first_run_exists(old.runs@, run_id);
    let c = choose|c: int| first_run(old.runs@, run_id, c);
    assert(first_run(old.runs@, run_id, c));
    assert(c == i);
    let t = choose|t: i64|
        t >= 0 && settled_run(
            old.runs@[i],
            new.runs@[i],
            "cancelled"@,
            (ErrorCode::RunCancelled, "run was cancelled"@, false),
            NativeApprovalStatus::Cancelled,
            t,
        );
    assert forall|j: int| 0 <= j < i implies new.runs@[j].id@ != run_id by {
        assert(new.runs@[j] == old.runs@[j]);
    }
    assert(first_run(new.runs@, run_id, i));
    lemma_first_run_unique(new.runs@, run_id, i);
    assert(terminal_status(new.runs@[i].status@));
}

/// Once workspace integration has been claimed, cancellation is refused:
/// it cannot replace the Run's durable result.
pub proof fn lemma_integration_excludes_cancel(
    old: WorkingSet,
    new: WorkingSet,
    lease: ExecutionLease,
    i: int,
    already: bool,
)
    requires
        integration_check(old, lease) == Ok::<(int, bool), (ErrorCode, Seq<char>, bool)>((i, already)),
        (already && new == old) || (!already && integration_claimed(old, new, i)),
    ensures
        cancel_check(new, lease.run_id@) == Err::<int, (ErrorCode, Seq<char>, bool)>(
            (
                ErrorCode::RunAlreadyTerminal,
                "workspace integration has started; cancellation cannot replace its durable result"@,
                false,
            ),
        ),
{
    let id = lease.run_id@;
    lemma_first_run_exists(old.runs@, id);
    let c = choose|c: int| first_run(old.runs@, id, c);
    assert(first_run(old.runs@, id, c));
    assert(c == i);
    assert(old.runs@[i].status@ == "settling"@);
    assert(!terminal_status("settling"@)) by {
        reveal_strlit("settling");
        reveal_strlit("completed");
        reveal_strlit("failed");
        reveal_strlit("cancelled");
        reveal_strlit("limit_exceeded");
        reveal_strlit("interrupted");
    }
    if !already {
        assert forall|j: int| 0 <= j < i implies new.runs@[j].id@ != id by {
            assert(new.runs@[j] == old.runs@[j]);
        }
        assert(new.runs@[i].id == old.runs@[i].id);
        assert(first_run(new.runs@, id, i));
    }
    lemma_first_run_unique(new.runs@, id, i);
    assert(new.runs@[i].status == old.runs@[i].status);
}

/// A finalization that cancellation won never integrates, and one that is
/// integrating stays so without a second claim.
pub proof fn lemma_finalization_decisions(cancelled: bool, lease_bound: bool)
    ensures
        integration_start(WorkspaceFinalizationDecision::Cancelled, cancelled, lease_bound) is Err,
        integration_start(WorkspaceFinalizationDecision::Open, true, lease_bound) is Err,
        integration_start(WorkspaceFinalizationDecision::Integrating, cancelled, lease_bound)
            == Ok::<bool, (ErrorCode, Seq<char>, bool)>(false),
{
}

/// What startup recovery claims for a Run.
#[derive(Debug)]
pub enum RecoveryClaim {
    /// The Run is queued and may simply run.
    Execute,
    /// The Run's checkpointed result is finalized under this new lease.
    Finalize(ExecutionLease),
    /// The Run at this position was settled (interrupted, cancelled or failed).
    Recovered(usize),
    /// The Run is already terminal.
    Skip,
}

/// The Run's checkpoint can be finalized: the Run holds an operation and its
/// journal is fenced by that operation at the Run's epoch, with a result.
pub open spec fn checkpoint_recoverable(state: WorkingSet, i: int) -> bool {
    let run = state.runs@[i];
    &&& run.operation_id is Some
    &&& has_journal(state.journals@, run.id@)
    &&& {
        let journal = state.journals@[choose|k: int| first_journal(state.journals@, run.id@, k)];
        &&& journal.operation_id@ == run.operation_id.unwrap()@
        &&& journal.lease_epoch == run.lease_epoch
        &&& journal.result.is_some()
    }
}

/// How recovery settles a non-terminal Run, as (status, message), or `None`
/// when the Run goes on: a queued Run is run again and a settling Run with a
/// complete checkpoint is finalized under the `ResumeSafe` policy.
pub open spec fn recovery_settlement(status: Seq<char>, policy: RecoveryPolicy, checkpoint_ok: bool) -> Option<
    (Seq<char>, Seq<char>),
> {
    match policy {
        RecoveryPolicy::ResumeSafe => if status == "queued"@ {
            None
        } else if status == "settling"@ {
            if checkpoint_ok {
                None
            } else {
                Some(
                    (
                        "interrupted"@,
                        "checkpointed workspace result is incomplete; recovery material was preserved for review"@,
                    ),
                )
            }
        } else if status == "cancelling"@ {
            Some(("cancelled"@, "run cancellation was completed during daemon recovery"@))
        } else {
            Some(
                (
                    "interrupted"@,
                    "run effects are not proven replay-safe; isolated workspace recovery material was preserved for review"@,
                ),
            )
        },
        RecoveryPolicy::Ask => Some(
            (
                "interrupted"@,
                "recovery policy requires user review; workspace changes were preserved"@,
            ),
        ),
        RecoveryPolicy::Fail => Some(("failed"@, "run failed because the daemon restarted"@)),
    }
}

/// `new` is `old` with Run `i` finalizing its checkpoint: its lease epoch
/// and its journal's move on, its phase is `reconciling_result`, its error
/// is cleared; nothing else changes.
pub open spec fn finalization_claimed(old: WorkingSet, new: WorkingSet, i: int) -> bool {
    let run = old.runs@[i];
    let epoch = next_epoch(run.lease_epoch);
    &&& new.runs@ == old.runs@.update(
        i,
        RunRecord { lease_epoch: epoch, phase: new.runs@[i].phase, error: None, ..run },
    )
    &&& phase_is(new.runs@[i].phase, "reconciling_result"@)
    &&& new.journals@ == fenced_journals(old.journals@, run.id@, epoch)
    &&& new.projects == old.projects
    &&& new.sessions == old.sessions
}

fn settle_with(state: &mut WorkingSet, index: usize, status: &str, message: &str)
    requires
        index < old(state).runs@.len(),
        held_versions_below_max(old(state).sessions@),
    ensures
        settled_in(
            *old(state),
            *final(state),
            index as int,
            status@,
            recovered_error(status@, message@),
            NativeApprovalStatus::Expired,
        ),
{
    settle_recovered_run(state, index, status, message);
}

/// The outcome of a startup recovery claim for Run `run_id` under
/// `settings`, turning `old` into `new` (see `claim_startup_recovery`).
pub open spec fn recovery_claimed(
    old: WorkingSet,
    new: WorkingSet,
    run_id: Seq<char>,
    settings: SettingsDocument,
    result: Result<RecoveryClaim, ControlError>,
) -> bool {
        match result {
            Err(e) => !has_run(old.runs@, run_id) && is_error(
                e,
                run_not_found_error().0,
                run_not_found_error().1,
                run_not_found_error().2,
            ) && new == old,
            Ok(claim) => has_run(old.runs@, run_id) && {
                let i = choose|i: int| first_run(old.runs@, run_id, i);
                let run = old.runs@[i];
                let settlement = recovery_settlement(
                    run.status@,
                    recovery_policy_of(settings),
                    checkpoint_recoverable(old, i),
                );
                match claim {
                    RecoveryClaim::Skip => terminal_status(run.status@) && new == old,
                    RecoveryClaim::Execute => !terminal_status(run.status@) && settlement.is_none()
                        && run.status@ == "queued"@ && new == old,
                    RecoveryClaim::Finalize(lease) => !terminal_status(run.status@)
                        && settlement.is_none() && run.status@ == "settling"@ && lease.run_id@
                        == run_id && lease.operation_id@ == run.operation_id.unwrap()@
                        && lease.lease_epoch == next_epoch(run.lease_epoch) && finalization_claimed(
                        old,
                        new,
                        i,
                    ),
                    RecoveryClaim::Recovered(j) => j == i && !terminal_status(run.status@) && (
                    settlement matches Some((status, message)) && settled_in(
                        old,
                        new,
                        i,
                        status,
                        recovered_error(status, message),
                        NativeApprovalStatus::Expired,
                    )),
                }
            },
        }
}

/// The recovery policy decides how a Run that startup recovery settles
/// ends: under `ask` it is `interrupted` for the user to review, under
/// `fail` it is `failed`, and under the default policy it is never `failed`
/// (a Run that was cancelling is `cancelled`, any other `interrupted`).
/// Only a Run that was not yet terminal is settled, and it ends terminal.
pub proof fn lemma_recovery_policy_decides_the_status(
    old: WorkingSet,
    new: WorkingSet,
    run_id: Seq<char>,
    settings: SettingsDocument,
    result: Result<RecoveryClaim, ControlError>,
)
    requires
        recovery_claimed(old, new, run_id, settings, result),
    ensures
        result matches Ok(RecoveryClaim::Recovered(j)) ==> !terminal_status(old.runs@[j as int].status@),
        result matches Ok(RecoveryClaim::Recovered(j)) ==> terminal_status(new.runs@[j as int].status@),
        result matches Ok(RecoveryClaim::Recovered(j)) ==> (recovery_policy_of(settings) == RecoveryPolicy::Ask
            ==> new.runs@[j as int].status@ == "interrupted"@),
        result matches Ok(RecoveryClaim::Recovered(j)) ==> (recovery_policy_of(settings) == RecoveryPolicy::Fail
            ==> new.runs@[j as int].status@ == "failed"@),
        result matches Ok(RecoveryClaim::Recovered(j)) ==> (recovery_policy_of(settings)
            == RecoveryPolicy::ResumeSafe && old.runs@[j as int].status@ == "cancelling"@
            ==> new.runs@[j as int].status@ == "cancelled"@),
        result matches Ok(RecoveryClaim::Recovered(j)) ==> (recovery_policy_of(settings)
            == RecoveryPolicy::ResumeSafe && old.runs@[j as int].status@ != "cancelling"@
            ==> new.runs@[j as int].status@ == "interrupted"@),
{
    reveal_strlit("cancelled");
    reveal_strlit("interrupted");
    reveal_strlit("failed");
    if let Ok(RecoveryClaim::Recovered(j)) = result {
        let i = choose|i: int| first_run(old.runs@, run_id, i);
        assert(j == i);
        let run = old.runs@[i];
        let settlement = recovery_settlement(
            run.status@,
            recovery_policy_of(settings),
            checkpoint_recoverable(old, i),
        );
        let (status, message) = settlement.unwrap();
        assert(settled_in(old, new, i, status, recovered_error(status, message), NativeApprovalStatus::Expired));
        let t = choose|t: i64|
            t >= 0 && settled_run(
                old.runs@[i],
                new.runs@[i],
                status,
                recovered_error(status, message),
                NativeApprovalStatus::Expired,
                t,
            );
        assert(new.runs@[i].status@ == status);
        assert(status == "interrupted"@ || status == "cancelled"@ || status == "failed"@);
        reveal_strlit("cancelling");
        reveal_strlit("queued");
        reveal_strlit("settling");
        assert("cancelling"@.len() != "queued"@.len());
        assert("cancelling"@.len() != "settling"@.len());
        if recovery_policy_of(settings) == RecoveryPolicy::ResumeSafe && run.status@ != "cancelling"@ {
            assert(run.status@ != "queued"@);
            assert(status == "interrupted"@);
        }
    }
}

/// The events a startup recovery claim queues: `run.recovery_claimed`
/// when a checkpoint is finalized, `run.recovered` when the Run was
/// settled, none otherwise.
pub open spec fn recovery_events(run_id: Seq<char>, result: Result<RecoveryClaim, ControlError>) -> Seq<
    (Seq<char>, Option<Seq<char>>),
> {
    match result {
        Ok(RecoveryClaim::Finalize(_)) => seq![event_of(EventKind::RunRecoveryClaimed, Some(run_id))],
        Ok(RecoveryClaim::Recovered(_)) => seq![event_of(EventKind::RunRecovered, Some(run_id))],
        _ => Seq::empty(),
    }
}

/// Claims a Run at startup (see `recovery_claimed`) and queues the event
/// the claim announces (see `recovery_events`).
pub fn claim_startup_recovery(
    state: &mut WorkingSet,
    run_id: &str,
    settings: &SettingsDocument,
    outbox: &mut Vec<PendingEvent>,
) -> (result: Result<RecoveryClaim, ControlError>)
    requires
        held_versions_below_max(old(state).sessions@),
    ensures
        recovery_claimed(*old(state), *final(state), run_id@, *settings, result),
        event_views(final(outbox)@) == event_views(old(outbox)@) + recovery_events(run_id@, result),
{
    let result = claim_recovery(state, run_id, settings);
    let ghost before = event_views(outbox@);
    match &result {
        Ok(RecoveryClaim::Finalize(_)) => {
            push_event(outbox, EventKind::RunRecoveryClaimed, Some(String::from_str(run_id)));
        },
        Ok(RecoveryClaim::Recovered(_)) => {
            push_event(outbox, EventKind::RunRecovered, Some(String::from_str(run_id)));
        },
        _ => {
            proof {
                assert(event_views(outbox@) =~= before + recovery_events(run_id@, result));
            }
        },
    }
    result
}

/// Claims a Run for startup recovery under the `runtime.recovery` policy of
/// `settings` (see `recovery_settlement`): a terminal Run is skipped, a
/// queued Run runs again, a settling Run with a complete checkpoint is
/// finalized under a new lease, and any other Run is settled.
fn claim_recovery(state: &mut WorkingSet, run_id: &str, settings: &SettingsDocument) -> (result:
    Result<RecoveryClaim, ControlError>)
    requires
        held_versions_below_max(old(state).sessions@),
    ensures
        recovery_claimed(*old(state), *final(state), run_id@, *settings, result),

{
    let index = match find_run(&state.runs, run_id) {
        Some(i) => i,
        None => return Err(control_error(ErrorCode::InvalidRun, "run not found", false)),
    };
    if is_terminal_workspace_status(state.runs[index].status.as_str()) {
        return Ok(RecoveryClaim::Skip);
    }
    let policy = recovery_policy(settings);
    match policy {
        RecoveryPolicy::ResumeSafe => {
            if str_equals(state.runs[index].status.as_str(), "queued") {
                return Ok(RecoveryClaim::Execute);
            }
            if str_equals(state.runs[index].status.as_str(), "settling") {
                let journal = find_journal(&state.journals, run_id);
                let valid = match (&state.runs[index].operation_id, journal) {
                    (Some(op), Some(k)) => str_equals(state.journals[k].operation_id.as_str(), op.as_str())
                        && state.journals[k].lease_epoch == state.runs[index].lease_epoch
                        && state.journals[k].result.is_some(),
                    _ => false,
                };
                if valid {
                    let operation_id = match &state.runs[index].operation_id {
                        Some(op) => op.clone(),
                        None => String::new(),
                    };
                    let epoch = if state.runs[index].lease_epoch == u64::MAX {
                        u64::MAX
                    } else {
                        state.runs[index].lease_epoch + 1
                    };
                    fence_journal(&mut state.journals, run_id, epoch);
                    state.runs[index].lease_epoch = epoch;
                    state.runs[index].phase = Some(String::from_str("reconciling_result"));
                    state.runs[index].error = None;
                    proof {
                        assert(state.runs@ =~= old(state).runs@.update(
                            index as int,
                            RunRecord {
                                lease_epoch: epoch,
                                phase: state.runs@[index as int].phase,
                                error: None,
                                ..old(state).runs@[index as int]
                            },
                        ));
                    }
                    return Ok(
                        RecoveryClaim::Finalize(
                            ExecutionLease {
                                run_id: String::from_str(run_id),
                                operation_id,
                                lease_epoch: epoch,
                            },
                        ),
                    );
                }
                settle_with(
                    state,
                    index,
                    "interrupted",
                    "checkpointed workspace result is incomplete; recovery material was preserved for review",
                );
            } else if str_equals(state.runs[index].status.as_str(), "cancelling") {
                settle_with(
                    state,
                    index,
                    "cancelled",
                    "run cancellation was completed during daemon recovery",
                );
            } else {
                settle_with(
                    state,
                    index,
                    "interrupted",
                    "run effects are not proven replay-safe; isolated workspace recovery material was preserved for review",
                );
            }
        },
        RecoveryPolicy::Ask => {
            settle_with(
                state,
                index,
                "interrupted",
                "recovery policy requires user review; workspace changes were preserved",
            );
        },
        RecoveryPolicy::Fail => {
            settle_with(state, index, "failed", "run failed because the daemon restarted");
        },
    }
    Ok(RecoveryClaim::Recovered(index))
}

/// What starting a Run needs: nothing when it is not queued (any more);
/// otherwise its position and, for a Codex Run, the working directory of
/// its Project, whose current branch becomes the Run's baseline.
#[derive(Debug)]
pub enum RunStart {
    NotQueued,
    Start { index: usize, baseline_workdir: Option<String> },
}

/// Finds the Run to start and what starting it needs (see `RunStart`).
pub fn prepare_run_start(state: &WorkingSet, run_id: &str) -> (result: Result<RunStart, ControlError>)
    ensures
        match result {
            Err(e) => {
                ||| (!has_run(state.runs@, run_id@) && is_error(
                    e,
                    run_not_found_error().0,
                    run_not_found_error().1,
                    run_not_found_error().2,
                ))
                ||| (has_run(state.runs@, run_id@) && {
                    let run = state.runs@[choose|i: int| first_run(state.runs@, run_id@, i)];
                    &&& run.status@ == "queued"@
                    &&& run.provider.kind == AgentMode::Codex
                    &&& !crate::resolution::has_project(state.projects@, run.project_id@)
                    &&& is_error(e, ErrorCode::InvalidProject, "project not found"@, false)
                })
            },
            Ok(RunStart::NotQueued) => has_run(state.runs@, run_id@) && state.runs@[choose|i: int|
                first_run(state.runs@, run_id@, i)].status@ != "queued"@,
            Ok(RunStart::Start { index, baseline_workdir }) => {
                let run = state.runs@[index as int];
                &&& first_run(state.runs@, run_id@, index as int)
                &&& run.status@ == "queued"@
                &&& if run.provider.kind == AgentMode::Codex {
                    crate::resolution::has_project(state.projects@, run.project_id@)
                        && opt_view(baseline_workdir) == Some(
                        crate::resolution::project_workdir(state.projects@, run.project_id@),
                    )
                } else {
                    baseline_workdir is None
                }
            },
        },
{
    let index = match find_run(&state.runs, run_id) {
        Some(i) => i,
        None => return Err(control_error(ErrorCode::InvalidRun, "run not found", false)),
    };
    if !str_equals(state.runs[index].status.as_str(), "queued") {
        return Ok(RunStart::NotQueued);
    }
    if state.runs[index].provider.kind == AgentMode::Codex {
        match crate::resolution::find_project(&state.projects, state.runs[index].project_id.as_str()) {
            Some(p) => Ok(
                RunStart::Start {
                    index,
                    baseline_workdir: Some(state.projects[p].workdir.clone()),
                },
            ),
            None => Err(control_error(ErrorCode::InvalidProject, "project not found", false)),
        }
    } else {
        Ok(RunStart::Start { index, baseline_workdir: None })
    }
}

/// Journal `j` is the fresh journal of a Run started under `op` at `epoch`.
pub open spec fn fresh_journal(
    j: RunJournal,
    run_id: Seq<char>,
    op: Seq<char>,
    epoch: u64,
    baseline: Option<Seq<char>>,
) -> bool {
    j.run_id@ == run_id && j.operation_id@ == op && j.lease_epoch == epoch && opt_view(j.baseline_ref)
        == baseline && j.result.is_none()
}

/// `new` is `old` with the Run's journal replaced by a fresh one (or one
/// added when it had none); nothing else changes.
pub open spec fn journal_reset(
    old: Seq<RunJournal>,
    new: Seq<RunJournal>,
    run_id: Seq<char>,
    op: Seq<char>,
    epoch: u64,
    baseline: Option<Seq<char>>,
) -> bool {
    if exists|k: int| first_journal(old, run_id, k) {
        let k = choose|k: int| first_journal(old, run_id, k);
        &&& new.len() == old.len()
        &&& forall|m: int| 0 <= m < old.len() && m != k ==> #[trigger] new[m] == old[m]
        &&& fresh_journal(new[k], run_id, op, epoch, baseline)
    } else {
        &&& new.len() == old.len() + 1
        &&& forall|m: int| 0 <= m < old.len() ==> #[trigger] new[m] == old[m]
        &&& fresh_journal(new[old.len() as int], run_id, op, epoch, baseline)
    }
}

/// The operation a started Run runs under: the one it names, else
/// `workspace-<run id>`.
pub open spec fn start_operation(run: RunRecord) -> Seq<char> {
    match run.operation_id {
        Some(op) => op@,
        None => "workspace-"@ + run.id@,
    }
}

/// Starts a queued Run at `index` with the baseline its Project gave: it
/// runs under its operation with a new lease epoch, in phase
/// `calling_agent`, its error cleared, with a fresh result journal. Returns
/// the lease of its executor.
pub fn start_run(state: &mut WorkingSet, index: usize, baseline_ref: Option<String>) -> (lease:
    ExecutionLease)
    requires
        index < old(state).runs@.len(),
    ensures
        ({
            let run = old(state).runs@[index as int];
            let epoch = next_epoch(run.lease_epoch);
            &&& lease.run_id == run.id
            &&& lease.operation_id@ == start_operation(run)
            &&& lease.lease_epoch == epoch
            &&& final(state).runs@ == old(state).runs@.update(
                index as int,
                RunRecord {
                    status: final(state).runs@[index as int].status,
                    phase: final(state).runs@[index as int].phase,
                    operation_id: final(state).runs@[index as int].operation_id,
                    lease_epoch: epoch,
                    error: None,
                    ..run
                },
            )
            &&& final(state).runs@[index as int].status@ == "running"@
            &&& phase_is(final(state).runs@[index as int].phase, "calling_agent"@)
            &&& (final(state).runs@[index as int].operation_id matches Some(op) && op@
                == start_operation(run))
            &&& journal_reset(
                old(state).journals@,
                final(state).journals@,
                run.id@,
                start_operation(run),
                epoch,
                opt_view(baseline_ref),
            )
            &&& final(state).projects == old(state).projects
            &&& final(state).sessions == old(state).sessions
        }),
{
    let ghost before = *state;
    let run_id = state.runs[index].id.clone();
    let operation_id = match &state.runs[index].operation_id {
        Some(op) => op.clone(),
        None => {
            let mut op = String::from_str("workspace-");
            push_str(&mut op, run_id.as_str());
            op
        },
    };
    let epoch = if state.runs[index].lease_epoch == u64::MAX {
        u64::MAX
    } else {
        state.runs[index].lease_epoch + 1
    };
    state.runs[index].status = String::from_str("running");
    state.runs[index].phase = Some(String::from_str("calling_agent"));
    state.runs[index].operation_id = Some(operation_id.clone());
    state.runs[index].lease_epoch = epoch;
    state.runs[index].error = None;
    proof {
        assert(state.runs@ =~= before.runs@.update(
            index as int,
            RunRecord {
                status: state.runs@[index as int].status,
                phase: state.runs@[index as int].phase,
                operation_id: state.runs@[index as int].operation_id,
                lease_epoch: epoch,
                error: None,
                ..before.runs@[index as int]
            },
        ));
    }
    let journal = RunJournal {
        run_id: run_id.clone(),
        operation_id: operation_id.clone(),
        lease_epoch: epoch,
        baseline_ref,
        result: None,
    };
    match find_journal(&state.journals, run_id.as_str()) {
        Some(k) => {
            state.journals.set(k, journal);
        },
        None => {
            state.journals.push(journal);
        },
    }
    ExecutionLease { run_id, operation_id, lease_epoch: epoch }
}

/// Whether the holder of `lease` may move a running Run to `settling`.
pub open spec fn settling_check(state: WorkingSet, lease: ExecutionLease) -> Outcome<Option<int>> {
    if !has_run(state.runs@, lease.run_id@) {
        Err(run_not_found_error())
    } else {
        let i = choose|i: int| first_run(state.runs@, lease.run_id@, i);
        if !lease_current(state.runs@[i], lease) {
            Err(recovery_error_of("stale workspace execution lease"@))
        } else if state.runs@[i].status@ != "running"@ {
            Ok(None)
        } else {
            Ok(Some(i))
        }
    }
}

/// Moves the running Run of `lease` to `settling` (status and phase);
/// returns whether it did, a Run that is not running being left alone.
pub fn set_run_settling(state: &mut WorkingSet, lease: &ExecutionLease) -> (result: Result<
    bool,
    ControlError,
>)
    ensures
        match (result, settling_check(*old(state), *lease)) {
            (Ok(false), Ok(None)) => *final(state) == *old(state),
            (Ok(true), Ok(Some(i))) => {
                &&& final(state).runs@ == old(state).runs@.update(
                    i,
                    RunRecord {
                        status: final(state).runs@[i].status,
                        phase: final(state).runs@[i].phase,
                        ..old(state).runs@[i]
                    },
                )
                &&& final(state).runs@[i].status@ == "settling"@
                &&& phase_is(final(state).runs@[i].phase, "settling"@)
                &&& final(state).projects == old(state).projects
                &&& final(state).sessions == old(state).sessions
                &&& final(state).journals == old(state).journals
            },
            (Err(e), Err(spec)) => is_error(e, spec.0, spec.1, spec.2) && *final(state) == *old(state),
            _ => false,
        },
{
    let i = match find_run(&state.runs, lease.run_id.as_str()) {
        Some(i) => i,
        None => return Err(control_error(ErrorCode::InvalidRun, "run not found", false)),
    };
    match ensure_current_lease(&state.runs[i], lease) {
        Ok(()) => {},
        Err(e) => return Err(e),
    }
    if !str_equals(state.runs[i].status.as_str(), "running") {
        return Ok(false);
    }
    let ghost before = *state;
    state.runs[i].status = String::from_str("settling");
    state.runs[i].phase = Some(String::from_str("settling"));
    proof {
        assert(state.runs@ =~= before.runs@.update(
            i as int,
            RunRecord {
                status: state.runs@[i as int].status,
                phase: state.runs@[i as int].phase,
                ..before.runs@[i as int]
            },
        ));
    }
    Ok(true)
}

/// What checkpointing a workspace result does: the lease must be current for
/// the Run and its journal; a terminal Run, or a settling Run, accepts only
/// the result already saved (and keeps it); otherwise only a running Run
/// takes it. On success, the Run's position and whether it was recorded now.
pub open spec fn result_check(state: WorkingSet, lease: ExecutionLease, result: Seq<char>) -> Outcome<
    (int, bool),
> {
    if !has_run(state.runs@, lease.run_id@) {
        Err(run_not_found_error())
    } else {
        let i = choose|i: int| first_run(state.runs@, lease.run_id@, i);
        let run = state.runs@[i];
        if !lease_current(run, lease) {
            Err(recovery_error_of("stale workspace execution lease"@))
        } else if !has_journal(state.journals@, lease.run_id@) {
            Err(recovery_error_of("workspace result journal is missing"@))
        } else {
            let journal = state.journals@[choose|k: int|
                first_journal(state.journals@, lease.run_id@, k)];
            let same = opt_view(journal.result) == Some(result);
            if !journal_current(journal, lease) {
                Err(recovery_error_of("stale workspace result journal lease"@))
            } else if terminal_status(run.status@) {
                if same {
                    Ok((i, false))
                } else {
                    Err(recovery_error_of("terminal Run cannot accept a different workspace result"@))
                }
            } else if run.status@ == "settling"@ && same {
                Ok((i, false))
            } else if run.status@ != "running"@ {
                Err(
                    (
                        ErrorCode::RunNotResumable,
                        "run is not accepting a workspace result checkpoint"@,
                        false,
                    ),
                )
            } else {
                Ok((i, true))
            }
        }
    }
}

/// Checkpoints the agent's result (its JSON text) for the holder of `lease`
/// (see `result_check`): a running Run saves it in its journal and becomes
/// `settling` in phase `result_persisted`; a repeated checkpoint of the same
/// result changes nothing. Returns the Run's position.
pub fn persist_workspace_result(state: &mut WorkingSet, lease: &ExecutionLease, result: String) -> (outcome:
    Result<usize, ControlError>)
    ensures
        match (outcome, result_check(*old(state), *lease, result@)) {
            (Ok(i), Ok((j, recorded))) => i == j && if !recorded {
                *final(state) == *old(state)
            } else {
                let k = choose|k: int| first_journal(old(state).journals@, lease.run_id@, k);
                &&& final(state).runs@ == old(state).runs@.update(
                    j,
                    RunRecord {
                        status: final(state).runs@[j].status,
                        phase: final(state).runs@[j].phase,
                        error: None,
                        ..old(state).runs@[j]
                    },
                )
                &&& final(state).runs@[j].status@ == "settling"@
                &&& phase_is(final(state).runs@[j].phase, "result_persisted"@)
                &&& final(state).journals@.len() == old(state).journals@.len()
                &&& forall|m: int|
                    0 <= m < old(state).journals@.len() && m != k ==> #[trigger] final(state).journals@[m]
                        == old(state).journals@[m]
                &&& final(state).journals@[k] == (RunJournal {
                    result: final(state).journals@[k].result,
                    ..old(state).journals@[k]
                })
                &&& opt_view(final(state).journals@[k].result) == Some(result@)
                &&& final(state).projects == old(state).projects
                &&& final(state).sessions == old(state).sessions
            },
            (Err(e), Err(spec)) => is_error(e, spec.0, spec.1, spec.2) && *final(state) == *old(state),
            _ => false,
        },
{
    let i = match find_run(&state.runs, lease.run_id.as_str()) {
        Some(i) => i,
        None => return Err(control_error(ErrorCode::InvalidRun, "run not found", false)),
    };
    match ensure_current_lease(&state.runs[i], lease) {
        Ok(()) => {},
        Err(e) => return Err(e),
    }
    let k = match find_journal(&state.journals, lease.run_id.as_str()) {
        Some(k) => k,
        None => {
            return Err(
                control_error(
                    ErrorCode::RunRecoveryFailed,
                    "workspace result journal is missing",
                    false,
                ),
            );
        },
    };
    match ensure_journal_lease(&state.journals[k], lease) {
        Ok(()) => {},
        Err(e) => return Err(e),
    }
    let same = match &state.journals[k].result {
        Some(saved) => str_equals(saved.as_str(), result.as_str()),
        None => false,
    };
    if is_terminal_workspace_status(state.runs[i].status.as_str()) {
        if same {
            return Ok(i);
        }
        return Err(
            control_error(
                ErrorCode::RunRecoveryFailed,
                "terminal Run cannot accept a different workspace result",
                false,
            ),
        );
    }
    if str_equals(state.runs[i].status.as_str(), "settling") && same {
        return Ok(i);
    }
    if !str_equals(state.runs[i].status.as_str(), "running") {
        return Err(
            control_error(
                ErrorCode::RunNotResumable,
                "run is not accepting a workspace result checkpoint",
                false,
            ),
        );
    }
    let ghost before = *state;
    state.journals[k].result = Some(result);
    state.runs[i].status = String::from_str("settling");
    state.runs[i].phase = Some(String::from_str("result_persisted"));
    state.runs[i].error = None;
    proof {
        assert(state.runs@ =~= before.runs@.update(
            i as int,
            RunRecord {
                status: state.runs@[i as int].status,
                phase: state.runs@[i as int].phase,
                error: None,
                ..before.runs@[i as int]
            },
        ));
    }
    Ok(i)
}

/// How a workspace agent's turn ended: with its result (as JSON text), or
/// with a failure.
#[derive(Debug)]
pub enum WorkspaceOutcome {
    Completed(String),
    Failed(DomainError),
}

/// The next step of finishing a workspace Run.
#[derive(Clone, Copy, Debug, PartialEq, Eq, Structural)]
pub enum FinishStep {
    /// The Run at this position is already terminal; nothing is left to do.
    AlreadyTerminal(usize),
    /// The Run at this position is to be settled with the outcome.
    Settle(usize),
}

/// Whether the holder of `lease` may finish its Run with `outcome`: the lease
/// is current for the Run and for its journal (if it has one), and a
/// completed turn must bring the result already checkpointed (if any).
pub open spec fn finish_check(state: WorkingSet, lease: ExecutionLease, outcome: WorkspaceOutcome) -> Outcome<
    FinishStep,
> {
    if !has_run(state.runs@, lease.run_id@) {
        Err(run_not_found_error())
    } else {
        let i = choose|i: int| first_run(state.runs@, lease.run_id@, i);
        let run = state.runs@[i];
        if !lease_current(run, lease) {
            Err(recovery_error_of("stale workspace execution lease"@))
        } else {
            let journal_ok = if has_journal(state.journals@, lease.run_id@) {
                let journal = state.journals@[choose|k: int|
                    first_journal(state.journals@, lease.run_id@, k)];
                if !journal_current(journal, lease) {
                    Err(recovery_error_of("stale workspace result journal lease"@))
                } else {
                    match (outcome, journal.result) {
                        (WorkspaceOutcome::Completed(r), Some(saved)) => if saved@ != r@ {
                            Err(
                                recovery_error_of(
                                    "terminal settlement received a different workspace result"@,
                                ),
                            )
                        } else {
                            Ok(())
                        },
                        _ => Ok(()),
                    }
                }
            } else {
                Ok(())
            };
            match journal_ok {
                Err(e) => Err(e),
                Ok(()) => if terminal_status(run.status@) {
                    Ok(FinishStep::AlreadyTerminal(i as usize))
                } else {
                    Ok(FinishStep::Settle(i as usize))
                },
            }
        }
    }
}

/// Checks how the holder of `lease` may finish its Run (see `finish_check`).
pub fn check_workspace_finish(state: &WorkingSet, lease: &ExecutionLease, outcome: &WorkspaceOutcome) -> (result:
    Result<FinishStep, ControlError>)
    ensures
        match (result, finish_check(*state, *lease, *outcome)) {
            (Ok(a), Ok(b)) => a == b,
            (Err(e), Err(spec)) => is_error(e, spec.0, spec.1, spec.2),
            _ => false,
        },
{
    let i = match find_run(&state.runs, lease.run_id.as_str()) {
        Some(i) => i,
        None => return Err(control_error(ErrorCode::InvalidRun, "run not found", false)),
    };
    match ensure_current_lease(&state.runs[i], lease) {
        Ok(()) => {},
        Err(e) => return Err(e),
    }
    match find_journal(&state.journals, lease.run_id.as_str()) {
        Some(k) => {
            match ensure_journal_lease(&state.journals[k], lease) {
                Ok(()) => {},
                Err(e) => return Err(e),
            }
            match (outcome, &state.journals[k].result) {
                (WorkspaceOutcome::Completed(r), Some(saved)) => {
                    if !str_equals(saved.as_str(), r.as_str()) {
                        return Err(
                            control_error(
                                ErrorCode::RunRecoveryFailed,
                                "terminal settlement received a different workspace result",
                                false,
                            ),
                        );
                    }
                },
                _ => {},
            }
        },
        None => {},
    }
    if is_terminal_workspace_status(state.runs[i].status.as_str()) {
        Ok(FinishStep::AlreadyTerminal(i))
    } else {
        Ok(FinishStep::Settle(i))
    }
}

/// The terminal status a Run takes: `interrupted` when a checkpointed result
/// could not be integrated, `completed` for a completed turn, else by the
/// failure: `cancelled`, `limit_exceeded` or `failed`.
pub open spec fn finished_status(status: Seq<char>, outcome: WorkspaceOutcome) -> Seq<char> {
    match outcome {
        WorkspaceOutcome::Completed(_) => "completed"@,
        WorkspaceOutcome::Failed(f) => if status == "settling"@ {
            "interrupted"@
        } else if f.code == ErrorCode::RunCancelled {
            "cancelled"@
        } else if f.code == ErrorCode::RunLimitExceeded {
            "limit_exceeded"@
        } else {
            "failed"@
        },
    }
}

/// The error a finished Run records (see `finished_status`).
pub open spec fn finished_error(status: Seq<char>, outcome: WorkspaceOutcome) -> Option<
    (ErrorCode, Seq<char>, bool),
> {
    match outcome {
        WorkspaceOutcome::Completed(_) => None,
        WorkspaceOutcome::Failed(f) => if status == "settling"@ {
            Some(
                (
                    f.code,
                    "checkpointed workspace result could not be integrated: "@ + f.message@,
                    f.retryable,
                ),
            )
        } else {
            Some((f.code, f.message@, f.retryable))
        },
    }
}

/// The status pending approvals take when a Run finishes: cancelled when its
/// turn was cancelled, expired otherwise.
pub open spec fn finished_approvals(outcome: WorkspaceOutcome) -> NativeApprovalStatus {
    match outcome {
        WorkspaceOutcome::Failed(f) => if f.code == ErrorCode::RunCancelled {
            NativeApprovalStatus::Cancelled
        } else {
            NativeApprovalStatus::Expired
        },
        _ => NativeApprovalStatus::Expired,
    }
}

/// `k` is the first Session with id `id`.
pub open spec fn first_session_with(sessions: Seq<SessionRecord>, id: Seq<char>, k: int) -> bool {
    0 <= k < sessions.len() && sessions[k].id@ == id && forall|j: int|
        0 <= j < k ==> (#[trigger] sessions[j]).id@ != id
}

/// `new` is `old` after a Run's reply `message_id` joined its Session: the
/// first Session with the Run's Session id moves its head to the reply and
/// raises its version; nothing else changes.
pub open spec fn sessions_advanced(
    old: Seq<SessionRecord>,
    new: Seq<SessionRecord>,
    session_id: Option<String>,
    message_id: Seq<char>,
) -> bool {
    match session_id {
        None => new == old,
        Some(sid) => if exists|k: int| first_session_with(old, sid@, k) {
            let k = choose|k: int| first_session_with(old, sid@, k);
            &&& new.len() == old.len()
            &&& forall|m: int| 0 <= m < old.len() && m != k ==> #[trigger] new[m] == old[m]
            &&& new[k] == (SessionRecord {
                current_message_id: new[k].current_message_id,
                version: (old[k].version + 1) as u64,
                ..old[k]
            })
            &&& new[k].current_message_id@ == message_id
        } else {
            new == old
        },
    }
}

/// No Session version is within two of its upper bound.
pub open spec fn versions_below_max_by_two(sessions: Seq<SessionRecord>) -> bool {
    forall|k: int| 0 <= k < sessions.len() ==> (#[trigger] sessions[k]).version < u64::MAX - 1
}

fn advance_session(sessions: &mut Vec<SessionRecord>, session_id: &Option<String>, message_id: &str)
    requires
        versions_below_max_by_two(old(sessions)@),
    ensures
        sessions_advanced(old(sessions)@, final(sessions)@, *session_id, message_id@),
        versions_below_max(final(sessions)@),
{
    let sid = match session_id {
        None => return,
        Some(sid) => sid,
    };
    let mut k: usize = 0;
    while k < sessions.len()
        invariant
            k <= sessions@.len(),
            sessions@ == old(sessions)@,
            *session_id == Some(*sid),
            versions_below_max_by_two(sessions@),
            forall|j: int| 0 <= j < k ==> (#[trigger] sessions@[j]).id@ != sid@,
        decreases sessions.len() - k,
    {
        if str_equals(sessions[k].id.as_str(), sid.as_str()) {
            proof {
                assert(first_session_with(sessions@, sid@, k as int));
                let c = choose|c: int| first_session_with(sessions@, sid@, c);
                assert(c == k) by {
                    if c < k {
                        assert(sessions@[c].id@ != sid@);
                    } else if c > k {
                        assert(sessions@[k as int].id@ != sid@);
                    }
                }
            }
            sessions[k].current_message_id = String::from_str(message_id);
            sessions[k].version = sessions[k].version + 1;
            return;
        }
        k = k + 1;
    }
    proof {
        assert(!exists|c: int| first_session_with(old(sessions)@, sid@, c));
    }
}

/// `new` is `old` after Run `i` finished with `outcome` (its reply being
/// `reply` when it completed): it takes the terminal status and error of
/// `finished_status` and `finished_error`, phase `terminal`, its pending
/// approvals settle (`finished_approvals`), a reply becomes its last Message
/// and its Session's head, and its Session is released. Leases, projects and
/// journals do not change.
pub open spec fn workspace_run_finished(
    old: WorkingSet,
    new: WorkingSet,
    i: int,
    outcome: WorkspaceOutcome,
    reply: Option<Seq<char>>,
) -> bool {
    let run = old.runs@[i];
    let updated = new.runs@[i];
    &&& new.runs@.len() == old.runs@.len()
    &&& forall|j: int| 0 <= j < old.runs@.len() && j != i ==> #[trigger] new.runs@[j] == old.runs@[j]
    &&& updated == (RunRecord {
        status: updated.status,
        phase: updated.phase,
        error: updated.error,
        last_message_id: updated.last_message_id,
        native_approvals: updated.native_approvals,
        ..run
    })
    &&& updated.status@ == finished_status(run.status@, outcome)
    &&& phase_is(updated.phase, "terminal"@)
    &&& match (updated.error, finished_error(run.status@, outcome)) {
        (None, None) => true,
        (Some(e), Some(spec)) => is_error(e, spec.0, spec.1, spec.2),
        _ => false,
    }
    &&& match reply {
        Some(m) => updated.last_message_id matches Some(l) && l@ == m,
        None => updated.last_message_id == run.last_message_id,
    }
    &&& exists|t: i64|
        t >= 0 && settled_approvals(
            run.native_approvals@,
            updated.native_approvals@,
            finished_approvals(outcome),
            t,
        )
    &&& exists|mid: Seq<SessionRecord>|
        {
            &&& match reply {
                Some(m) => sessions_advanced(old.sessions@, mid, run.session_id, m),
                None => mid == old.sessions@,
            }
            &&& sessions_released(mid, new.sessions@, run.session_id, run.id@)
        }
    &&& new.projects == old.projects
    &&& new.journals == old.journals
}

/// How a Run finishes follows its agent's outcome: a completed turn makes
/// it `completed`; a failure of a Run that was not settling makes it
/// `cancelled` exactly when the failure is a cancellation, `limit_exceeded`
/// exactly when it is a limit failure, and `failed` otherwise, recording the
/// failure's code and message; a failure while settling makes it
/// `interrupted`. Every way it finishes is terminal.
pub proof fn lemma_finished_status_follows_the_outcome(
    old: WorkingSet,
    new: WorkingSet,
    i: int,
    outcome: WorkspaceOutcome,
    reply: Option<Seq<char>>,
)
    requires
        workspace_run_finished(old, new, i, outcome, reply),
    ensures
        terminal_status(new.runs@[i].status@),
        outcome is Completed ==> new.runs@[i].status@ == "completed"@ && new.runs@[i].error is None,
        outcome matches WorkspaceOutcome::Failed(f) ==> {
            let status = new.runs@[i].status@;
            if old.runs@[i].status@ == "settling"@ {
                status == "interrupted"@
            } else {
                &&& (status == "cancelled"@ <==> f.code == ErrorCode::RunCancelled)
                &&& (status == "limit_exceeded"@ <==> f.code == ErrorCode::RunLimitExceeded)
                &&& (status == "failed"@ <==> (f.code != ErrorCode::RunCancelled && f.code
                    != ErrorCode::RunLimitExceeded))
                &&& new.runs@[i].error matches Some(e) && e.code == f.code && e.message@ == f.message@
            }
        },
{
    reveal_strlit("cancelled");
    reveal_strlit("limit_exceeded");
    reveal_strlit("failed");
    reveal_strlit("completed");
    reveal_strlit("interrupted");
    assert("cancelled"@.len() != "limit_exceeded"@.len());
    assert("cancelled"@.len() != "failed"@.len());
    assert("limit_exceeded"@.len() != "failed"@.len());
}

/// Settles the Run at `index` with its agent's `outcome` (see
/// `workspace_run_finished`); `reply_id` names the assistant Message that a
/// completed turn produced.
pub fn settle_workspace_run(
    state: &mut WorkingSet,
    index: usize,
    outcome: &WorkspaceOutcome,
    reply_id: Option<String>,
)
    requires
        index < old(state).runs@.len(),
        versions_below_max_by_two(old(state).sessions@),
        (*outcome is Completed) == reply_id.is_some(),
    ensures
        workspace_run_finished(*old(state), *final(state), index as int, *outcome, opt_view(reply_id)),
{
    let ghost before = *state;
    let settling = str_equals(state.runs[index].status.as_str(), "settling");
    match outcome {
        WorkspaceOutcome::Completed(_) => {
            state.runs[index].status = String::from_str("completed");
            state.runs[index].error = None;
        },
        WorkspaceOutcome::Failed(f) => {
            if settling {
                let mut message = String::from_str(
                    "checkpointed workspace result could not be integrated: ",
                );
                push_str(&mut message, f.message.as_str());
                state.runs[index].status = String::from_str("interrupted");
                state.runs[index].error = Some(
                    ControlError { code: f.code, message, retryable: f.retryable },
                );
            } else {
                let status = if f.code == ErrorCode::RunCancelled {
                    "cancelled"
                } else if f.code == ErrorCode::RunLimitExceeded {
                    "limit_exceeded"
                } else {
                    "failed"
                };
                state.runs[index].status = String::from_str(status);
                state.runs[index].error = Some(control_error(f.code, f.message.as_str(), f.retryable));
            }
        },
    }
    let ghost after_status = *state;
    match &reply_id {
        Some(m) => {
            state.runs[index].last_message_id = Some(m.clone());
            advance_session(&mut state.sessions, &state.runs[index].session_id, m.as_str());
        },
        None => {
            proof {
                assert(versions_below_max(state.sessions@));
            }
        },
    }
    let ghost mid = state.sessions@;
    let approvals = match outcome {
        WorkspaceOutcome::Failed(f) => if f.code == ErrorCode::RunCancelled {
            NativeApprovalStatus::Cancelled
        } else {
            NativeApprovalStatus::Expired
        },
        _ => NativeApprovalStatus::Expired,
    };
    let ghost pre_approvals = state.runs@[index as int].native_approvals@;
    expire_pending_native_approvals(&mut state.runs[index], approvals);
    state.runs[index].phase = Some(String::from_str("terminal"));
    release_session(&mut state.sessions, &state.runs[index].session_id, state.runs[index].id.as_str());
    proof {
        let t = choose|t: i64|
            t >= 0 && settled_approvals(pre_approvals, state.runs@[index as int].native_approvals@, approvals, t);
        assert(pre_approvals == before.runs@[index as int].native_approvals@);
        assert(settled_approvals(
            before.runs@[index as int].native_approvals@,
            state.runs@[index as int].native_approvals@,
            finished_approvals(*outcome),
            t,
        ));
        assert(sessions_released(mid, state.sessions@, before.runs@[index as int].session_id, before.runs@[index as int].id@));
    }
}

} // verus!
