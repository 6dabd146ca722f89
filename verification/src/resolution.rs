//! Human decisions on native approvals: which request a decision reaches,
//! what must be proven before an approval is granted, and how the Run's
//! record changes once it is.
use vstd::prelude::*;
use crate::approvals::{
    grant_plan, native_approval_grant_plan, same_approval_correlation, same_correlation,
    ApprovalGrantScope, GrantPlan, NativeApprovalState, NativeApprovalStatus, RawRequestId,
};
use crate::approvals::{decision_of, ApprovalDecision};
use crate::identity::{
    native_approval_id, native_approval_id_text, request_id_json, unserializable_id_error,
    ProtocolRequestId,
};
use crate::clock::now;
use crate::errors::{control_error, is_error, ControlError, ErrorCode, Outcome};
use crate::permissions::PermissionPolicyLimits;
use crate::runs::{
    find_run, first_run, has_run, is_terminal_workspace_status, run_not_found_error,
    terminal_status, ProjectRecord, RunRecord, WorkingSet,
};
use crate::text::{str_equals, texts};

use crate::events::{event_of, event_views, push_event, EventKind, PendingEvent};

verus! {

/// What the user does with a pending native approval.
#[derive(Clone, Copy, Debug, PartialEq, Eq, Structural)]
pub enum NativeApprovalAction {
    Approve,
    Deny,
    Cancel,
}

/// `k` is the first approval with id `id`.
pub open spec fn first_approval(approvals: Seq<NativeApprovalState>, id: Seq<char>, k: int) -> bool {
    0 <= k < approvals.len() && approvals[k].id@ == id && forall|j: int|
        0 <= j < k ==> (#[trigger] approvals[j]).id@ != id
}

/// Some approval has id `id`.
pub open spec fn has_approval(approvals: Seq<NativeApprovalState>, id: Seq<char>) -> bool {
    exists|k: int| 0 <= k < approvals.len() && approvals[k].id@ == id
}

/// The position of the first approval with id `id`.
pub fn find_approval(approvals: &Vec<NativeApprovalState>, id: &str) -> (found: Option<usize>)
    ensures
        match found {
            Some(k) => first_approval(approvals@, id@, k as int) && k == choose|c: int|
                first_approval(approvals@, id@, c),
            None => !has_approval(approvals@, id@),
        },
{
    let mut k: usize = 0;
    while k < approvals.len()
        invariant
            k <= approvals@.len(),
            forall|j: int| 0 <= j < k ==> (#[trigger] approvals@[j]).id@ != id@,
        decreases approvals.len() - k,
    {
        if str_equals(approvals[k].id.as_str(), id) {
            proof {
                assert(first_approval(approvals@, id@, k as int));
                let c = choose|c: int| first_approval(approvals@, id@, c);
                assert(c == k) by {
                    if c < k {
                        assert(approvals@[c].id@ != id@);
                    } else if c > k {
                        assert(approvals@[k as int].id@ != id@);
                    }
                }
            }
            return Some(k);
        }
        k = k + 1;
    }
    None
}

/// `k` is the first Project with id `id`.
pub open spec fn first_project(projects: Seq<ProjectRecord>, id: Seq<char>, k: int) -> bool {
    0 <= k < projects.len() && projects[k].id@ == id && forall|j: int|
        0 <= j < k ==> (#[trigger] projects[j]).id@ != id
}

/// Some Project has id `id`.
pub open spec fn has_project(projects: Seq<ProjectRecord>, id: Seq<char>) -> bool {
    exists|k: int| 0 <= k < projects.len() && projects[k].id@ == id
}

/// The position of the first Project with id `id`.
pub fn find_project(projects: &Vec<ProjectRecord>, id: &str) -> (found: Option<usize>)
    ensures
        match found {
            Some(k) => first_project(projects@, id@, k as int) && k == choose|c: int|
                first_project(projects@, id@, c),
            None => !has_project(projects@, id@),
        },
{
    let mut k: usize = 0;
    while k < projects.len()
        invariant
            k <= projects@.len(),
            forall|j: int| 0 <= j < k ==> (#[trigger] projects@[j]).id@ != id@,
        decreases projects.len() - k,
    {
        if str_equals(projects[k].id.as_str(), id) {
            proof {
                assert(first_project(projects@, id@, k as int));
                let c = choose|c: int| first_project(projects@, id@, c);
                assert(c == k) by {
                    if c < k {
                        assert(projects@[c].id@ != id@);
                    } else if c > k {
                        assert(projects@[k as int].id@ != id@);
                    }
                }
            }
            return Some(k);
        }
        k = k + 1;
    }
    None
}

/// The Run a decision names.
pub open spec fn run_at(state: WorkingSet, run_id: Seq<char>) -> int {
    choose|i: int| first_run(state.runs@, run_id, i)
}

/// The approval a decision names within its Run.
pub open spec fn approval_at(run: RunRecord, approval_id: Seq<char>) -> int {
    choose|k: int| first_approval(run.native_approvals@, approval_id, k)
}

/// The working directory of the first Project with id `id`.
pub open spec fn project_workdir(projects: Seq<ProjectRecord>, id: Seq<char>) -> Seq<char> {
    projects[choose|k: int| first_project(projects, id, k)].workdir@
}

/// The error of a decision carrying a scope it cannot have, or missing one.
pub open spec fn scope_error(message: Seq<char>) -> (ErrorCode, Seq<char>, bool) {
    (ErrorCode::InvalidConfiguration, message, false)
}

/// The checks that every decision passes, in order: the Run exists and is
/// not terminal, the approval exists and is pending, a cancellation carries
/// no scope; for an approval or a denial, the Run's Project exists, an
/// approval carries a scope and a denial none. On success, the positions of
/// the Run and of the approval.
pub open spec fn decision_check(
    state: WorkingSet,
    run_id: Seq<char>,
    approval_id: Seq<char>,
    action: NativeApprovalAction,
    scope: Option<ApprovalGrantScope>,
) -> Outcome<(int, int)> {
    if !has_run(state.runs@, run_id) {
        Err(run_not_found_error())
    } else {
        let i = run_at(state, run_id);
        let run = state.runs@[i];
        if terminal_status(run.status@) {
            Err((ErrorCode::RunAlreadyTerminal, "native approval belongs to a terminal Run"@, false))
        } else if !has_approval(run.native_approvals@, approval_id) {
            Err((ErrorCode::ToolApprovalRequired, "native approval request not found"@, false))
        } else {
            let k = approval_at(run, approval_id);
            if run.native_approvals@[k].status != NativeApprovalStatus::Pending {
                Err(
                    (
                        ErrorCode::ToolApprovalRequired,
                        "native approval request is no longer pending"@,
                        false,
                    ),
                )
            } else if action == NativeApprovalAction::Cancel {
                if scope.is_some() {
                    Err(scope_error("cancellation cannot carry an authorization scope"@))
                } else {
                    Ok((i, k))
                }
            } else if !has_project(state.projects@, run.project_id@) {
                Err((ErrorCode::InvalidProject, "project not found"@, false))
            } else if action == NativeApprovalAction::Approve && scope.is_none() {
                Err(scope_error("approval scope is required when approving"@))
            } else if action == NativeApprovalAction::Deny && scope.is_some() {
                Err(scope_error("denial cannot carry an authorization scope"@))
            } else {
                Ok((i, k))
            }
        }
    }
}

/// What follows a decision that passed its checks.
#[derive(Debug)]
pub enum DecisionStep {
    /// The whole Run is cancelled (see `cancel_run`).
    CancelRun,
    /// The approval is denied.
    Deny,
    /// The approval is granted for `scope` once every path of `plan` is
    /// proven inside the Project rooted at `project_root`, and `plan.after`
    /// is empty.
    Approve { scope: ApprovalGrantScope, project_root: String, plan: GrantPlan },
}

/// A decision that passed its checks: the Run, the approval and the next step.
#[derive(Debug)]
pub struct DecisionPlan {
    pub run_index: usize,
    pub approval_index: usize,
    pub step: DecisionStep,
}

/// `g` carries exactly the planned boundary checks and final error.
pub open spec fn grant_matches(
    g: GrantPlan,
    planned: Outcome<(Seq<Seq<char>>, Option<(ErrorCode, Seq<char>, bool)>)>,
) -> bool {
    match planned {
        Ok((paths, after)) => texts(g.paths@) == paths && match (g.after, after) {
            (None, None) => true,
            (Some(e), Some(spec)) => is_error(e, spec.0, spec.1, spec.2),
            _ => false,
        },
        Err(_) => false,
    }
}

/// `step` grants the approval for the requested scope under the Project's
/// root, with the plan that `grant_plan` gives for the Run's permissions.
pub open spec fn approve_step(
    step: DecisionStep,
    scope: Option<ApprovalGrantScope>,
    root: Seq<char>,
    approval: NativeApprovalState,
    limits: PermissionPolicyLimits,
    run: RunRecord,
) -> bool {
    match step {
        DecisionStep::Approve { scope: s, project_root, plan } => scope == Some(s)
            && project_root@ == root && grant_matches(
            plan,
            grant_plan(approval, s, limits, run.permission_profile),
        ),
        _ => false,
    }
}

/// `e` is the error with which `grant_plan` refuses the approval.
pub open spec fn grant_refused(
    e: ControlError,
    scope: Option<ApprovalGrantScope>,
    approval: NativeApprovalState,
    limits: PermissionPolicyLimits,
    run: RunRecord,
) -> bool {
    match scope {
        Some(s) => match grant_plan(approval, s, limits, run.permission_profile) {
            Err(spec) => is_error(e, spec.0, spec.1, spec.2),
            Ok(_) => false,
        },
        None => false,
    }
}

/// Checks the user's decision on a native approval (see `decision_check`);
/// an approval must also pass `grant_plan`, whose remaining boundary checks
/// the returned step carries.
pub fn plan_native_approval_decision(
    state: &WorkingSet,
    run_id: &str,
    approval_id: &str,
    action: NativeApprovalAction,
    scope: Option<ApprovalGrantScope>,
    limits: PermissionPolicyLimits,
) -> (result: Result<DecisionPlan, ControlError>)
    ensures
        match (result, decision_check(*state, run_id@, approval_id@, action, scope)) {
            (Ok(plan), Ok((i, k))) => {
                &&& plan.run_index == i
                &&& plan.approval_index == k
                &&& match action {
                    NativeApprovalAction::Cancel => plan.step is CancelRun,
                    NativeApprovalAction::Deny => plan.step is Deny,
                    NativeApprovalAction::Approve => approve_step(
                        plan.step,
                        scope,
                        project_workdir(state.projects@, state.runs@[i].project_id@),
                        state.runs@[i].native_approvals@[k],
                        limits,
                        state.runs@[i],
                    ),
                }
            },
            (Err(e), Ok((i, k))) => action == NativeApprovalAction::Approve && grant_refused(
                e,
                scope,
                state.runs@[i].native_approvals@[k],
                limits,
                state.runs@[i],
            ),
            (Err(e), Err(spec)) => is_error(e, spec.0, spec.1, spec.2),
            _ => false,
        },
{
    let i = match find_run(&state.runs, run_id) {
        Some(i) => i,
        None => return Err(control_error(ErrorCode::InvalidRun, "run not found", false)),
    };
    let run = &state.runs[i];
    if is_terminal_workspace_status(run.status.as_str()) {
        return Err(
            control_error(
                ErrorCode::RunAlreadyTerminal,
                "native approval belongs to a terminal Run",
                false,
            ),
        );
    }
    let k = match find_approval(&run.native_approvals, approval_id) {
        Some(k) => k,
        None => {
            return Err(
                control_error(
                    ErrorCode::ToolApprovalRequired,
                    "native approval request not found",
                    false,
                ),
            );
        },
    };
    if run.native_approvals[k].status != NativeApprovalStatus::Pending {
        return Err(
            control_error(
                ErrorCode::ToolApprovalRequired,
                "native approval request is no longer pending",
                false,
            ),
        );
    }
    if action == NativeApprovalAction::Cancel {
        if scope.is_some() {
            return Err(
                control_error(
                    ErrorCode::InvalidConfiguration,
                    "cancellation cannot carry an authorization scope",
                    false,
                ),
            );
        }
        return Ok(DecisionPlan { run_index: i, approval_index: k, step: DecisionStep::CancelRun });
    }
    let p = match find_project(&state.projects, run.project_id.as_str()) {
        Some(p) => p,
        None => return Err(control_error(ErrorCode::InvalidProject, "project not found", false)),
    };
    match action {
        NativeApprovalAction::Approve => {
            let s = match scope {
                Some(s) => s,
                None => {
                    return Err(
                        control_error(
                            ErrorCode::InvalidConfiguration,
                            "approval scope is required when approving",
                            false,
                        ),
                    );
                },
            };
            let plan = match native_approval_grant_plan(
                &run.native_approvals[k],
                s,
                limits,
                run.permission_profile,
            ) {
                Ok(plan) => plan,
                Err(e) => return Err(e),
            };
            Ok(
                DecisionPlan {
                    run_index: i,
                    approval_index: k,
                    step: DecisionStep::Approve {
                        scope: s,
                        project_root: state.projects[p].workdir.clone(),
                        plan,
                    },
                },
            )
        },
        _ => {
            if scope.is_some() {
                return Err(
                    control_error(
                        ErrorCode::InvalidConfiguration,
                        "denial cannot carry an authorization scope",
                        false,
                    ),
                );
            }
            Ok(DecisionPlan { run_index: i, approval_index: k, step: DecisionStep::Deny })
        },
    }
}

/// The user's verdict on a pending approval whose checks passed.
#[derive(Clone, Copy, Debug, PartialEq, Eq, Structural)]
pub enum ApprovalVerdict {
    Approve(ApprovalGrantScope),
    Deny,
}

/// What an approval becomes under a verdict given at `t`: an approval grants
/// the scope and the requested permission profile.
pub open spec fn decided_approval(
    a: NativeApprovalState,
    verdict: ApprovalVerdict,
    t: i64,
) -> NativeApprovalState {
    match verdict {
        ApprovalVerdict::Approve(scope) => NativeApprovalState {
            status: NativeApprovalStatus::Approved,
            granted_scope: Some(scope),
            grants_requested_permissions: true,
            decided_at: Some(t),
            ..a
        },
        ApprovalVerdict::Deny => NativeApprovalState {
            status: NativeApprovalStatus::Denied,
            decided_at: Some(t),
            ..a
        },
    }
}

/// The answer to a native request follows the verdict on it: approving a
/// request for a scope answers `Approved` for that scope, with the
/// requested permission profile exactly when the request asked for one;
/// denying it answers `Denied`. An approved answer always names the granted
/// scope, and carries permissions only when the approval grants a requested
/// profile; a pending approval gives no answer, a denied one `Denied`, and a
/// cancelled or expired one `Cancelled`.
pub proof fn lemma_answer_follows_the_verdict(a: NativeApprovalState, verdict: ApprovalVerdict, t: i64)
    ensures
        verdict matches ApprovalVerdict::Approve(scope) ==> decision_of(decided_approval(a, verdict, t))
            == Some(
            ApprovalDecision::Approved { scope, with_permissions: a.requested_permissions is Some },
        ),
        verdict is Deny ==> decision_of(decided_approval(a, verdict, t)) == Some(ApprovalDecision::Denied),
        decision_of(a) matches Some(ApprovalDecision::Approved { scope, with_permissions }) ==> {
            &&& a.status == NativeApprovalStatus::Approved
            &&& a.granted_scope == Some(scope)
            &&& with_permissions ==> a.requested_permissions is Some
            &&& (a.grants_requested_permissions && a.requested_permissions is Some) ==> with_permissions
        },
        a.status == NativeApprovalStatus::Pending ==> decision_of(a) is None,
        a.status == NativeApprovalStatus::Denied ==> decision_of(a) == Some(ApprovalDecision::Denied),
        (a.status == NativeApprovalStatus::Cancelled || a.status == NativeApprovalStatus::Expired)
            ==> decision_of(a) == Some(ApprovalDecision::Cancelled),
        (a.status == NativeApprovalStatus::Approved && a.granted_scope is Some) ==> decision_of(a) is Some,
{
}

/// Some approval is still pending.
pub open spec fn any_pending(approvals: Seq<NativeApprovalState>) -> bool {
    exists|j: int| 0 <= j < approvals.len() && (#[trigger] approvals[j]).status == NativeApprovalStatus::Pending
}

/// Whether an approval of the list is pending.
pub fn has_pending(approvals: &Vec<NativeApprovalState>) -> (pending: bool)
    ensures
        pending == any_pending(approvals@),
{
    let mut j: usize = 0;
    while j < approvals.len()
        invariant
            j <= approvals@.len(),
            forall|m: int| 0 <= m < j ==> (#[trigger] approvals@[m]).status != NativeApprovalStatus::Pending,
        decreases approvals.len() - j,
    {
        if approvals[j].status == NativeApprovalStatus::Pending {
            return true;
        }
        j = j + 1;
    }
    false
}

/// `new` is the Run `old` after approval `k` became `approval`: when no
/// approval is pending any more (and, if `live_only`, the Run is not
/// terminal), the Run goes back to `calling_agent`; nothing else changes.
pub open spec fn approval_replaced(
    old: RunRecord,
    new: RunRecord,
    k: int,
    approval: NativeApprovalState,
    live_only: bool,
) -> bool {
    &&& new == (RunRecord { native_approvals: new.native_approvals, phase: new.phase, ..old })
    &&& new.native_approvals@ == old.native_approvals@.update(k, approval)
    &&& if !any_pending(new.native_approvals@) && !(live_only && terminal_status(old.status@)) {
        phase_named(new.phase, "calling_agent"@)
    } else {
        new.phase == old.phase
    }
}

/// `phase` is the phase named `name`.
pub open spec fn phase_named(phase: Option<String>, name: Seq<char>) -> bool {
    phase matches Some(p) && p@ == name
}

fn replace_approval_status(
    run: &mut RunRecord,
    k: usize,
    status: NativeApprovalStatus,
    t: i64,
    live_only: bool,
)
    requires
        k < old(run).native_approvals@.len(),
    ensures
        approval_replaced(
            *old(run),
            *final(run),
            k as int,
            NativeApprovalState { status, decided_at: Some(t), ..old(run).native_approvals@[k as int] },
            live_only,
        ),
{
    run.native_approvals[k].status = status;
    run.native_approvals[k].decided_at = Some(t);
    assert(run.native_approvals@ =~= old(run).native_approvals@.update(
        k as int,
        NativeApprovalState { status, decided_at: Some(t), ..old(run).native_approvals@[k as int] },
    ));
    if !has_pending(&run.native_approvals) && !(live_only && is_terminal_workspace_status(
        run.status.as_str(),
    )) {
        run.phase = Some(String::from_str("calling_agent"));
    }
}

/// Records a verdict on approval `k` of a Run, stamped with the current time
/// (see `decided_approval` and `approval_replaced`), and queues one
/// `run.approval_resolved` event about the Run.
pub fn record_native_approval_decision(
    run: &mut RunRecord,
    k: usize,
    verdict: ApprovalVerdict,
    outbox: &mut Vec<PendingEvent>,
)
    requires
        k < old(run).native_approvals@.len(),
    ensures
        event_views(final(outbox)@) == event_views(old(outbox)@).push(
            event_of(EventKind::RunApprovalResolved, Some(old(run).id@)),
        ),
        exists|t: i64|
            t >= 0 && approval_replaced(
                *old(run),
                *final(run),
                k as int,
                decided_approval(old(run).native_approvals@[k as int], verdict, t),
                false,
            ),
{
    let t = now();
    match verdict {
        ApprovalVerdict::Approve(scope) => {
            run.native_approvals[k].granted_scope = Some(scope);
            run.native_approvals[k].grants_requested_permissions = true;
            replace_approval_status(run, k, NativeApprovalStatus::Approved, t, false);
        },
        ApprovalVerdict::Deny => {
            replace_approval_status(run, k, NativeApprovalStatus::Denied, t, false);
        },
    }
    push_event(outbox, EventKind::RunApprovalResolved, Some(run.id.clone()));
    assert(run.native_approvals@ =~= old(run).native_approvals@.update(
        k as int,
        decided_approval(old(run).native_approvals@[k as int], verdict, t),
    ));
}

/// The error of an expiry for an unknown Run.
pub open spec fn expiry_run_error() -> (ErrorCode, Seq<char>, bool) {
    (ErrorCode::InvalidRun, "native approval Run not found"@, false)
}

/// Which approval an expiry settles: none when the approval is unknown or
/// already decided, else the positions of the Run and of the approval.
pub open spec fn expiry_check(state: WorkingSet, run_id: Seq<char>, approval_id: Option<Seq<char>>) -> Outcome<
    Option<(int, int)>,
> {
    if !has_run(state.runs@, run_id) {
        Err(expiry_run_error())
    } else {
        let i = run_at(state, run_id);
        let run = state.runs@[i];
        match approval_id {
            None => Ok(None),
            Some(id) => if !has_approval(run.native_approvals@, id) {
                Ok(None)
            } else if run.native_approvals@[approval_at(run, id)].status
                != NativeApprovalStatus::Pending {
                Ok(None)
            } else {
                Ok(Some((i, approval_at(run, id))))
            },
        }
    }
}

/// The id of the approval an agent's request id names: `None` for an id that
/// is neither a text nor a 64-bit integer, since only those are recorded.
pub open spec fn expiry_approval_id(run_id: Seq<char>, request_id: RawRequestId) -> Option<
    Option<Seq<char>>,
> {
    match request_id {
        RawRequestId::Text(t) => match request_id_json(ProtocolRequestId::Text(t)) {
            Some(json) => Some(Some(native_approval_id_text(run_id, json))),
            None => None,
        },
        RawRequestId::Integer(n) => match request_id_json(ProtocolRequestId::Integer(n)) {
            Some(json) => Some(Some(native_approval_id_text(run_id, json))),
            None => None,
        },
        RawRequestId::Other => Some(None),
    }
}

/// `new` is the Run `old` after its approval `k` expired at `t` (see `approval_replaced`).
pub open spec fn expired_in(old: RunRecord, new: RunRecord, k: int, t: i64) -> bool {
    approval_replaced(
        old,
        new,
        k,
        NativeApprovalState {
            status: NativeApprovalStatus::Expired,
            decided_at: Some(t),
            ..old.native_approvals@[k]
        },
        true,
    )
}

/// `new` is `old` after approval `k` of Run `i` expired (see `expired_in`).
pub open spec fn approval_expired_in(old: WorkingSet, new: WorkingSet, i: int, k: int) -> bool {
    &&& new.runs@.len() == old.runs@.len()
    &&& forall|j: int| 0 <= j < old.runs@.len() && j != i ==> #[trigger] new.runs@[j] == old.runs@[j]
    &&& exists|t: i64| t >= 0 && expired_in(old.runs@[i], new.runs@[i], k, t)
    &&& new.projects == old.projects
    &&& new.sessions == old.sessions
    &&& new.journals == old.journals
}

/// Expires the pending approval an agent's request names once the agent
/// stops waiting: it becomes `Expired` at the current time and, when nothing
/// else is pending and the Run is not terminal, the Run goes back to
/// `calling_agent`. Returns whether anything changed.
pub fn expire_native_approval(
    state: &mut WorkingSet,
    run_id: &str,
    request_id: &RawRequestId,
) -> (result: Result<bool, ControlError>)
    ensures
        match expiry_approval_id(run_id@, *request_id) {
            None => result matches Err(e) && is_error(
                e,
                unserializable_id_error().0,
                unserializable_id_error().1,
                unserializable_id_error().2,
            ) && *final(state) == *old(state),
            Some(approval_id) => match (result, expiry_check(*old(state), run_id@, approval_id)) {
                (Ok(false), Ok(None)) => *final(state) == *old(state),
                (Ok(true), Ok(Some((i, k)))) => approval_expired_in(*old(state), *final(state), i, k),
                (Err(e), Err(spec)) => is_error(e, spec.0, spec.1, spec.2) && *final(state)
                    == *old(state),
                _ => false,
            },
        },
{
    let approval_id = match request_id {
        RawRequestId::Text(t) => match native_approval_id(run_id, &ProtocolRequestId::Text(t.clone())) {
            Ok(id) => Some(id),
            Err(e) => return Err(e),
        },
        RawRequestId::Integer(n) => match native_approval_id(run_id, &ProtocolRequestId::Integer(*n)) {
            Ok(id) => Some(id),
            Err(e) => return Err(e),
        },
        RawRequestId::Other => None,
    };
    let i = match find_run(&state.runs, run_id) {
        Some(i) => i,
        None => return Err(control_error(ErrorCode::InvalidRun, "native approval Run not found", false)),
    };
    let id = match &approval_id {
        Some(id) => id,
        None => return Ok(false),
    };
    let k = match find_approval(&state.runs[i].native_approvals, id.as_str()) {
        Some(k) => k,
        None => return Ok(false),
    };
    if state.runs[i].native_approvals[k].status != NativeApprovalStatus::Pending {
        return Ok(false);
    }
    let t = now();
    let ghost before = *state;
    replace_approval_status(&mut state.runs[i], k, NativeApprovalStatus::Expired, t, true);
    proof {
        assert(expired_in(before.runs@[i as int], state.runs@[i as int], k as int, t));
        assert(approval_expired_in(before, *state, i as int, k as int));
    }
    Ok(true)
}

/// When some approval has an id, a first one has it.
pub proof fn lemma_first_approval_exists(approvals: Seq<NativeApprovalState>, id: Seq<char>)
    requires
        has_approval(approvals, id),
    ensures
        exists|c: int| first_approval(approvals, id, c),
{
    let w = choose|w: int| 0 <= w < approvals.len() && approvals[w].id@ == id;
    lemma_first_approval_below(approvals, id, w);
}

proof fn lemma_first_approval_below(approvals: Seq<NativeApprovalState>, id: Seq<char>, w: int)
    requires
        0 <= w < approvals.len(),
        approvals[w].id@ == id,
    ensures
        exists|c: int| first_approval(approvals, id, c),
    decreases w,
{
    if forall|j: int| 0 <= j < w ==> (#[trigger] approvals[j]).id@ != id {
        assert(first_approval(approvals, id, w));
    } else {
        let j = choose|j: int| 0 <= j < w && (#[trigger] approvals[j]).id@ == id;
        lemma_first_approval_below(approvals, id, j);
    }
}

/// A decided approval cannot be decided again: once a verdict on it is
/// recorded, any further decision on it is refused as no longer pending.
pub proof fn lemma_decision_is_final(
    old: WorkingSet,
    new: WorkingSet,
    run_id: Seq<char>,
    approval_id: Seq<char>,
    action: NativeApprovalAction,
    scope: Option<ApprovalGrantScope>,
    i: int,
    k: int,
    verdict: ApprovalVerdict,
    t: i64,
    next_action: NativeApprovalAction,
    next_scope: Option<ApprovalGrantScope>,
)
    requires
        decision_check(old, run_id, approval_id, action, scope) == Ok::<
            (int, int),
            (ErrorCode, Seq<char>, bool),
        >((i, k)),
        new.runs@.len() == old.runs@.len(),
        forall|j: int| 0 <= j < old.runs@.len() && j != i ==> #[trigger] new.runs@[j] == old.runs@[j],
        approval_replaced(
            old.runs@[i],
            new.runs@[i],
            k,
            decided_approval(old.runs@[i].native_approvals@[k], verdict, t),
            false,
        ),
    ensures
        decision_check(new, run_id, approval_id, next_action, next_scope) == Err::<
            (int, int),
            (ErrorCode, Seq<char>, bool),
        >((ErrorCode::ToolApprovalRequired, "native approval request is no longer pending"@, false)),
{
    crate::runs::lemma_first_run_exists(old.runs@, run_id);
    let c = choose|c: int| first_run(old.runs@, run_id, c);
    assert(first_run(old.runs@, run_id, c));
    assert(c == i);
    let run = old.runs@[i];
    let updated = new.runs@[i];
    assert forall|j: int| 0 <= j < i implies new.runs@[j].id@ != run_id by {
        assert(new.runs@[j] == old.runs@[j]);
    }
    assert(updated.id == run.id);
    assert(first_run(new.runs@, run_id, i));
    crate::runs::lemma_first_run_unique(new.runs@, run_id, i);
    lemma_first_approval_exists(run.native_approvals@, approval_id);
    let d = choose|d: int| first_approval(run.native_approvals@, approval_id, d);
    assert(first_approval(run.native_approvals@, approval_id, d));
    assert(d == k);
    assert forall|j: int| 0 <= j < k implies (#[trigger] updated.native_approvals@[j]).id@
        != approval_id by {
        assert(updated.native_approvals@[j] == run.native_approvals@[j]);
    }
    assert(updated.native_approvals@[k].id == run.native_approvals@[k].id);
    assert(first_approval(updated.native_approvals@, approval_id, k));
    assert(has_approval(updated.native_approvals@, approval_id));
    let e = choose|e: int| first_approval(updated.native_approvals@, approval_id, e);
    assert(first_approval(updated.native_approvals@, approval_id, e));
    assert(e == k) by {
        if e < k {
            assert(updated.native_approvals@[e].id@ != approval_id);
        } else if e > k {
            assert(updated.native_approvals@[k].id@ != approval_id);
        }
    }
    assert(updated.status == run.status);
    assert(updated.native_approvals@[k].status != NativeApprovalStatus::Pending);
}

/// How a native approval request was taken into its Run.
#[derive(Clone, Copy, Debug, PartialEq, Eq, Structural)]
pub enum Admission {
    /// The same request was already recorded at this position; nothing changed.
    Existing(usize),
    /// The request was recorded, and the Run now waits for approval.
    Added,
}

/// Whether a native approval record may join its Run: the Run exists and is
/// not terminal; a record with the same id must carry the same correlation,
/// and is then kept as it is. On success, the position of that record.
pub open spec fn admission_check(state: WorkingSet, approval: NativeApprovalState) -> Outcome<
    Option<int>,
> {
    if !has_run(state.runs@, approval.run_id@) {
        Err(run_not_found_error())
    } else {
        let run = state.runs@[run_at(state, approval.run_id@)];
        if terminal_status(run.status@) {
            Err((ErrorCode::RunAlreadyTerminal, "native approval belongs to a terminal Run"@, false))
        } else if has_approval(run.native_approvals@, approval.id@) {
            let k = approval_at(run, approval.id@);
            if same_correlation(run.native_approvals@[k], approval) {
                Ok(Some(k))
            } else {
                Err(
                    (
                        ErrorCode::ToolCallDuplicate,
                        "native approval identity was reused with different correlation"@,
                        false,
                    ),
                )
            }
        } else {
            Ok(None)
        }
    }
}

/// Takes a native approval record into its Run (see `admission_check`): a
/// new record is appended and the Run waits for approval; a repeated request
/// with the same correlation finds the record already there.
pub fn admit_native_approval(state: &mut WorkingSet, approval: NativeApprovalState) -> (result: Result<
    Admission,
    ControlError,
>)
    ensures
        match (result, admission_check(*old(state), approval)) {
            (Ok(Admission::Existing(k)), Ok(Some(j))) => k == j && *final(state) == *old(state),
            (Ok(Admission::Added), Ok(None)) => {
                let i = run_at(*old(state), approval.run_id@);
                &&& final(state).runs@.len() == old(state).runs@.len()
                &&& forall|j: int|
                    0 <= j < old(state).runs@.len() && j != i ==> #[trigger] final(state).runs@[j]
                        == old(state).runs@[j]
                &&& final(state).runs@[i] == (RunRecord {
                    native_approvals: final(state).runs@[i].native_approvals,
                    phase: final(state).runs@[i].phase,
                    ..old(state).runs@[i]
                })
                &&& final(state).runs@[i].native_approvals@ == old(state).runs@[i].native_approvals@.push(
                    approval,
                )
                &&& phase_named(final(state).runs@[i].phase, "waiting_approval"@)
                &&& final(state).projects == old(state).projects
                &&& final(state).sessions == old(state).sessions
                &&& final(state).journals == old(state).journals
            },
            (Err(e), Err(spec)) => is_error(e, spec.0, spec.1, spec.2) && *final(state) == *old(state),
            _ => false,
        },
{
    let i = match find_run(&state.runs, approval.run_id.as_str()) {
        Some(i) => i,
        None => return Err(control_error(ErrorCode::InvalidRun, "run not found", false)),
    };
    if is_terminal_workspace_status(state.runs[i].status.as_str()) {
        return Err(
            control_error(
                ErrorCode::RunAlreadyTerminal,
                "native approval belongs to a terminal Run",
                false,
            ),
        );
    }
    match find_approval(&state.runs[i].native_approvals, approval.id.as_str()) {
        Some(k) => {
            if same_approval_correlation(&state.runs[i].native_approvals[k], &approval) {
                Ok(Admission::Existing(k))
            } else {
                Err(
                    control_error(
                        ErrorCode::ToolCallDuplicate,
                        "native approval identity was reused with different correlation",
                        false,
                    ),
                )
            }
        },
        None => {
            state.runs[i].native_approvals.push(approval);
            state.runs[i].phase = Some(String::from_str("waiting_approval"));
            Ok(Admission::Added)
        },
    }
}

/// Admission is idempotent: once a record has been added, the same record
/// is found again on a repeated request, and nothing changes.
pub proof fn lemma_admission_is_idempotent(
    old: WorkingSet,
    new: WorkingSet,
    approval: NativeApprovalState,
)
    requires
        admission_check(old, approval) == Ok::<Option<int>, (ErrorCode, Seq<char>, bool)>(None),
        ({
            let i = run_at(old, approval.run_id@);
            &&& new.runs@.len() == old.runs@.len()
            &&& forall|j: int| 0 <= j < old.runs@.len() && j != i ==> #[trigger] new.runs@[j] == old.runs@[j]
            &&& new.runs@[i] == (RunRecord {
                native_approvals: new.runs@[i].native_approvals,
                phase: new.runs@[i].phase,
                ..old.runs@[i]
            })
            &&& new.runs@[i].native_approvals@ == old.runs@[i].native_approvals@.push(approval)
        }),
    ensures
        admission_check(new, approval) == Ok::<Option<int>, (ErrorCode, Seq<char>, bool)>(
            Some(old.runs@[run_at(old, approval.run_id@)].native_approvals@.len() as int),
        ),
{
    let id = approval.run_id@;
    crate::runs::lemma_first_run_exists(old.runs@, id);
    let i = run_at(old, id);
    assert(first_run(old.runs@, id, i));
    assert forall|j: int| 0 <= j < i implies new.runs@[j].id@ != id by {
        assert(new.runs@[j] == old.runs@[j]);
    }
    assert(first_run(new.runs@, id, i));
    crate::runs::lemma_first_run_unique(new.runs@, id, i);
    let before = old.runs@[i].native_approvals@;
    let after = new.runs@[i].native_approvals@;
    let n = before.len() as int;
    assert(after[n] == approval);
    assert forall|j: int| 0 <= j < n implies (#[trigger] after[j]).id@ != approval.id@ by {
        assert(after[j] == before[j]);
        if after[j].id@ == approval.id@ {
            assert(has_approval(before, approval.id@));
        }
    }
    assert(first_approval(after, approval.id@, n));
    assert(has_approval(after, approval.id@));
    let c = choose|c: int| first_approval(after, approval.id@, c);
    assert(first_approval(after, approval.id@, c));
    assert(c == n) by {
        if c < n {
            assert(after[c].id@ != approval.id@);
        } else if c > n {
            assert(after[n].id@ != approval.id@);
        }
    }
    assert(crate::approvals::same_entries(
        match approval.requested_permissions {
            Some(p) => match p.file_system {
                Some(f) => f.entries@,
                None => Seq::empty(),
            },
            None => Seq::empty(),
        },
        match approval.requested_permissions {
            Some(p) => match p.file_system {
                Some(f) => f.entries@,
                None => Seq::empty(),
            },
            None => Seq::empty(),
        },
    ));
    assert(same_correlation(after[n], approval));
}

} // verus!
