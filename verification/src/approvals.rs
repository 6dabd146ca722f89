//! Native approval requests of a workspace agent: correlation, reviewable
//! targets, durable records, decisions and the checks a grant must pass.
use vstd::prelude::*;
use crate::clock::now;
use crate::errors::{control_error, is_error, ControlError, ErrorCode, Outcome};
use crate::identity::{
    native_approval_id, native_approval_id_text, request_id_json, unserializable_id_error,
    ProtocolRequestId,
};
use crate::json::opt_view;
use crate::permissions::{
    grant_ceiling_targets, grant_targets, native_profile_check, unprovable_grant_error, rank, sandbox_rank,
    validate_native_permission_profile, FileSystemEntry, FileSystemPath, FileSystemPermissions,
    NativePermissionProfile, PermissionPolicyLimits, RunPermissionProfile, SandboxAccess,
    SpecialPath,
};
use crate::text::{
    bounded_display_value, chars_of, is_blank, is_blank_str, is_bounded_display_value, str_equals,
    texts, texts_equal, utf8,
};

verus! {

broadcast use vstd::utf8::group_utf8_lib;

/// Upper bound of the run, thread, turn and item ids that correlate a request.
pub const MAX_CORRELATION_ID_BYTES: usize = 512;

/// Upper bound of the protocol method name of a request.
pub const MAX_METHOD_BYTES: usize = 128;

/// Upper bound of a textual protocol request id.
pub const MAX_REQUEST_ID_BYTES: usize = 512;

/// Upper bound of the files one file-change approval may list.
pub const MAX_FILE_CHANGES: usize = 128;

/// Upper bound of the serialized permission profile kept with an approval.
pub const MAX_PERMISSION_PROFILE_BYTES: usize = 131072;

/// What a native approval request asks for.
#[derive(Clone, Copy, Debug, PartialEq, Eq, Structural)]
pub enum NativeApprovalKind {
    CommandExecution,
    LegacyCommand,
    FileChange,
    LegacyPatch,
    Permissions,
}

/// The reviewable object of a native approval request.
#[derive(Debug)]
pub enum NativeApprovalTarget {
    Command { command: String, cwd: String },
    Network { host: String },
    /// The optional root a grant is asked for and the paths of the changed files.
    FileChange { grant_root: Option<String>, changes: Vec<String> },
    Permissions { cwd: String },
}

/// Where a native approval stands.
#[derive(Clone, Copy, Debug, PartialEq, Eq, Structural)]
pub enum NativeApprovalStatus {
    Pending,
    Approved,
    Denied,
    Cancelled,
    Expired,
}

/// How long an approval grant lasts.
#[derive(Clone, Copy, Debug, PartialEq, Eq, Structural)]
pub enum ApprovalGrantScope {
    OneShot,
    Turn,
    Session,
}

/// The protocol request id exactly as the agent sent it.
#[derive(Debug)]
pub enum RawRequestId {
    Text(String),
    Integer(i64),
    /// Any other JSON value (a float, an object, an integer beyond `i64`, ...).
    Other,
}

/// The permission profile attached to a request, as read from its JSON.
#[derive(Debug)]
pub enum RequestedPermissions {
    Absent,
    /// Present but not a permission profile.
    Unparsable,
    /// A parsed profile and the length of its JSON encoding (`None` when it
    /// cannot be encoded).
    Parsed { profile: NativePermissionProfile, encoded_len: Option<usize> },
}

/// A native approval request from a workspace agent.
#[derive(Debug)]
pub struct ApprovalRequest {
    pub run_id: String,
    pub protocol_request_id: RawRequestId,
    pub method: String,
    pub kind: NativeApprovalKind,
    pub thread_id: String,
    pub turn_id: String,
    pub item_id: String,
    pub target: NativeApprovalTarget,
    pub requested_permissions: RequestedPermissions,
}

/// The durable record of a native approval request.
#[derive(Debug)]
pub struct NativeApprovalState {
    pub id: String,
    pub run_id: String,
    pub protocol_request_id: ProtocolRequestId,
    pub method: String,
    pub kind: NativeApprovalKind,
    pub thread_id: String,
    pub turn_id: String,
    pub item_id: String,
    pub target: NativeApprovalTarget,
    pub requested_permissions: Option<NativePermissionProfile>,
    pub status: NativeApprovalStatus,
    pub granted_scope: Option<ApprovalGrantScope>,
    /// Whether the requested permission profile was granted with the approval.
    pub grants_requested_permissions: bool,
    pub created_at: i64,
    pub decided_at: Option<i64>,
}

/// The answer handed back to the agent that asked.
#[derive(Clone, Copy, Debug, PartialEq, Eq, Structural)]
pub enum ApprovalDecision {
    /// Approved for `scope`; `with_permissions` when the requested profile is granted too.
    Approved { scope: ApprovalGrantScope, with_permissions: bool },
    Denied,
    Cancelled,
}

/// `s` holds the character `c`.
pub open spec fn has_char(s: Seq<char>, c: char) -> bool {
    exists|i: int| 0 <= i < s.len() && s[i] == c
}

/// A correlation field is usable: not blank, at most `limit` bytes, no NUL.
pub open spec fn correlation_field(s: Seq<char>, limit: int) -> bool {
    !is_blank(s) && utf8(s).len() <= limit && !has_char(s, '\0')
}

/// Every correlation field of the request is usable.
pub open spec fn correlation_complete(r: ApprovalRequest) -> bool {
    &&& correlation_field(r.run_id@, MAX_CORRELATION_ID_BYTES as int)
    &&& correlation_field(r.thread_id@, MAX_CORRELATION_ID_BYTES as int)
    &&& correlation_field(r.turn_id@, MAX_CORRELATION_ID_BYTES as int)
    &&& correlation_field(r.item_id@, MAX_CORRELATION_ID_BYTES as int)
    &&& correlation_field(r.method@, MAX_METHOD_BYTES as int)
}

/// The protocol id of a raw request id: a non-empty text of at most
/// `MAX_REQUEST_ID_BYTES` bytes, or a 64-bit integer.
pub open spec fn protocol_id_of(raw: RawRequestId) -> Option<ProtocolRequestId> {
    match raw {
        RawRequestId::Text(s) => if s@.len() > 0 && utf8(s@).len() <= MAX_REQUEST_ID_BYTES {
            Some(ProtocolRequestId::Text(s))
        } else {
            None
        },
        RawRequestId::Integer(n) => Some(ProtocolRequestId::Integer(n)),
        RawRequestId::Other => None,
    }
}

/// The target suits the kind of request and every text in it is reviewable.
pub open spec fn target_reviewable(kind: NativeApprovalKind, target: NativeApprovalTarget) -> bool {
    match target {
        NativeApprovalTarget::Command { command, cwd } => (kind == NativeApprovalKind::CommandExecution
            || kind == NativeApprovalKind::LegacyCommand) && bounded_display_value(command@)
            && bounded_display_value(cwd@),
        NativeApprovalTarget::Network { host } => kind == NativeApprovalKind::CommandExecution
            && bounded_display_value(host@),
        NativeApprovalTarget::FileChange { grant_root, changes } => (kind
            == NativeApprovalKind::FileChange || kind == NativeApprovalKind::LegacyPatch)
            && changes@.len() <= MAX_FILE_CHANGES && (changes@.len() > 0 || grant_root.is_some())
            && (grant_root matches Some(root) ==> bounded_display_value(root@)) && (forall|i: int|
            0 <= i < changes@.len() ==> bounded_display_value(#[trigger] changes@[i]@)),
        NativeApprovalTarget::Permissions { cwd } => kind == NativeApprovalKind::Permissions
            && bounded_display_value(cwd@),
    }
}

/// The error of a request whose correlation is not usable.
pub open spec fn correlation_error() -> (ErrorCode, Seq<char>, bool) {
    (ErrorCode::ToolApprovalRequired, "native approval correlation is incomplete"@, false)
}

/// The error of a request id that is neither a bounded text nor an integer.
pub open spec fn request_id_error() -> (ErrorCode, Seq<char>, bool) {
    (
        ErrorCode::ToolApprovalRequired,
        "native approval request id must be a bounded string or integer"@,
        false,
    )
}

/// The error of a target that cannot be reviewed.
pub open spec fn target_error() -> (ErrorCode, Seq<char>, bool) {
    (
        ErrorCode::ToolApprovalRequired,
        "native approval has no bounded, reviewable authorization target"@,
        false,
    )
}

/// The checks a requested permission profile passes before it is recorded.
pub open spec fn requested_profile(
    kind: NativeApprovalKind,
    requested: RequestedPermissions,
) -> Outcome<Option<NativePermissionProfile>> {
    if kind != NativeApprovalKind::Permissions {
        Ok(None)
    } else {
        match requested {
            RequestedPermissions::Absent => Err(
                (
                    ErrorCode::ToolApprovalRequired,
                    "permission approval omitted its explicit permission profile"@,
                    false,
                ),
            ),
            RequestedPermissions::Unparsable => Err(
                (ErrorCode::ToolApprovalRequired, "invalid Codex permission profile"@, false),
            ),
            RequestedPermissions::Parsed { profile, encoded_len } => match native_profile_check(
                profile,
            ) {
                Err(e) => Err(e),
                Ok(_) => match encoded_len {
                    None => Err(
                        (
                            ErrorCode::ToolApprovalRequired,
                            "Codex permission profile is not serializable"@,
                            false,
                        ),
                    ),
                    Some(n) => if n > MAX_PERMISSION_PROFILE_BYTES {
                        Err(
                            (
                                ErrorCode::ToolApprovalRequired,
                                "Codex permission profile exceeds the persistence and UI limit"@,
                                false,
                            ),
                        )
                    } else {
                        Ok(Some(profile))
                    },
                },
            },
        }
    }
}

/// The checks of a request before its id is derived, in order: correlation,
/// request id, target, permission profile. On success, the protocol id and
/// the profile to record.
pub open spec fn request_checks(r: ApprovalRequest) -> Outcome<
    (ProtocolRequestId, Option<NativePermissionProfile>),
> {
    if !correlation_complete(r) {
        Err(correlation_error())
    } else {
        match protocol_id_of(r.protocol_request_id) {
            None => Err(request_id_error()),
            Some(pid) => if !target_reviewable(r.kind, r.target) {
                Err(target_error())
            } else {
                match requested_profile(r.kind, r.requested_permissions) {
                    Err(e) => Err(e),
                    Ok(profile) => Ok((pid, profile)),
                }
            },
        }
    }
}

fn has_nul(value: &str) -> (found: bool)
    ensures
        found == has_char(value@, '\0'),
{
    let chars = chars_of(value);
    let mut i: usize = 0;
    while i < chars.len()
        invariant
            chars@ == value@,
            i <= chars.len(),
            forall|j: int| 0 <= j < i ==> chars@[j] != '\0',
        decreases chars.len() - i,
    {
        if chars[i] == '\0' {
            return true;
        }
        i = i + 1;
    }
    false
}

fn is_correlation_field(value: &str, limit: usize) -> (ok: bool)
    ensures
        ok == correlation_field(value@, limit as int),
{
    let length = value.as_bytes().len();
    !is_blank_str(value) && length <= limit && !has_nul(value)
}

/// Whether the target suits the kind of request (see `target_reviewable`).
pub fn validate_native_approval_target(
    kind: NativeApprovalKind,
    target: &NativeApprovalTarget,
) -> (result: Result<(), ControlError>)
    ensures
        target_reviewable(kind, *target) ==> result is Ok,
        !target_reviewable(kind, *target) ==> (result matches Err(e) && is_error(
            e,
            target_error().0,
            target_error().1,
            target_error().2,
        )),
{
    let valid = match target {
        NativeApprovalTarget::Command { command, cwd } => (kind
            == NativeApprovalKind::CommandExecution || kind == NativeApprovalKind::LegacyCommand)
            && is_bounded_display_value(command.as_str()) && is_bounded_display_value(cwd.as_str()),
        NativeApprovalTarget::Network { host } => kind == NativeApprovalKind::CommandExecution
            && is_bounded_display_value(host.as_str()),
        NativeApprovalTarget::FileChange { grant_root, changes } => {
            if !(kind == NativeApprovalKind::FileChange || kind == NativeApprovalKind::LegacyPatch)
                || changes.len() > MAX_FILE_CHANGES || (changes.len() == 0 && grant_root.is_none()) {
                false
            } else {
                let root_ok = match grant_root {
                    Some(root) => is_bounded_display_value(root.as_str()),
                    None => true,
                };
                let mut all = true;
                let mut i: usize = 0;
                while i < changes.len() && all
                    invariant
                        i <= changes@.len(),
                        all == (forall|j: int|
                            0 <= j < i ==> bounded_display_value(#[trigger] changes@[j]@)),
                    decreases changes.len() - i,
                {
                    all = is_bounded_display_value(changes[i].as_str());
                    i = i + 1;
                }
                root_ok && all && i == changes.len()
            }
        },
        NativeApprovalTarget::Permissions { cwd } => kind == NativeApprovalKind::Permissions
            && is_bounded_display_value(cwd.as_str()),
    };
    if valid {
        Ok(())
    } else {
        Err(
            control_error(
                ErrorCode::ToolApprovalRequired,
                "native approval has no bounded, reviewable authorization target",
                false,
            ),
        )
    }
}

/// The record a valid request starts as: pending, undecided, created now.
pub open spec fn recorded_as(
    state: NativeApprovalState,
    r: ApprovalRequest,
    pid: ProtocolRequestId,
    profile: Option<NativePermissionProfile>,
    json: Seq<u8>,
) -> bool {
    &&& state.id@ == native_approval_id_text(r.run_id@, json)
    &&& state.run_id == r.run_id
    &&& state.protocol_request_id == pid
    &&& state.method == r.method
    &&& state.kind == r.kind
    &&& state.thread_id == r.thread_id
    &&& state.turn_id == r.turn_id
    &&& state.item_id == r.item_id
    &&& state.target == r.target
    &&& state.requested_permissions == profile
    &&& state.status == NativeApprovalStatus::Pending
    &&& state.granted_scope.is_none()
    &&& !state.grants_requested_permissions
    &&& state.created_at >= 0
    &&& state.decided_at.is_none()
}

/// Validates a native approval request and builds its durable record (see
/// `request_checks`); the record's id is derived from the Run id and the JSON
/// of the request id, and its creation time is read from the clock.
pub fn native_approval_record(request: ApprovalRequest) -> (result: Result<
    NativeApprovalState,
    ControlError,
>)
    ensures
        match (result, request_checks(request)) {
            (Ok(state), Ok((pid, profile))) => request_id_json(pid) matches Some(json)
                && recorded_as(state, request, pid, profile, json),
            (Err(e), Ok((pid, _))) => request_id_json(pid) is None && is_error(
                e,
                unserializable_id_error().0,
                unserializable_id_error().1,
                unserializable_id_error().2,
            ),
            (Err(e), Err(spec)) => is_error(e, spec.0, spec.1, spec.2),
            _ => false,
        },
{
    let ApprovalRequest {
        run_id,
        protocol_request_id,
        method,
        kind,
        thread_id,
        turn_id,
        item_id,
        target,
        requested_permissions,
    } = request;
    if !(is_correlation_field(run_id.as_str(), MAX_CORRELATION_ID_BYTES) && is_correlation_field(
        thread_id.as_str(),
        MAX_CORRELATION_ID_BYTES,
    ) && is_correlation_field(turn_id.as_str(), MAX_CORRELATION_ID_BYTES) && is_correlation_field(
        item_id.as_str(),
        MAX_CORRELATION_ID_BYTES,
    ) && is_correlation_field(method.as_str(), MAX_METHOD_BYTES)) {
        return Err(
            control_error(
                ErrorCode::ToolApprovalRequired,
                "native approval correlation is incomplete",
                false,
            ),
        );
    }
    let pid = match protocol_request_id {
        RawRequestId::Text(s) => {
            let length = s.as_str().as_bytes().len();
            if !s.as_str().is_empty() && length <= MAX_REQUEST_ID_BYTES {
                ProtocolRequestId::Text(s)
            } else {
                return Err(
                    control_error(
                        ErrorCode::ToolApprovalRequired,
                        "native approval request id must be a bounded string or integer",
                        false,
                    ),
                );
            }
        },
        RawRequestId::Integer(n) => ProtocolRequestId::Integer(n),
        RawRequestId::Other => {
            return Err(
                control_error(
                    ErrorCode::ToolApprovalRequired,
                    "native approval request id must be a bounded string or integer",
                    false,
                ),
            );
        },
    };
    match validate_native_approval_target(kind, &target) {
        Ok(()) => {},
        Err(e) => return Err(e),
    }
    let profile = if kind == NativeApprovalKind::Permissions {
        match requested_permissions {
            RequestedPermissions::Absent => {
                return Err(
                    control_error(
                        ErrorCode::ToolApprovalRequired,
                        "permission approval omitted its explicit permission profile",
                        false,
                    ),
                );
            },
            RequestedPermissions::Unparsable => {
                return Err(
                    control_error(
                        ErrorCode::ToolApprovalRequired,
                        "invalid Codex permission profile",
                        false,
                    ),
                );
            },
            RequestedPermissions::Parsed { profile, encoded_len } => {
                match validate_native_permission_profile(&profile) {
                    Ok(()) => {},
                    Err(e) => return Err(e),
                }
                match encoded_len {
                    None => {
                        return Err(
                            control_error(
                                ErrorCode::ToolApprovalRequired,
                                "Codex permission profile is not serializable",
                                false,
                            ),
                        );
                    },
                    Some(n) => {
                        if n > MAX_PERMISSION_PROFILE_BYTES {
                            return Err(
                                control_error(
                                    ErrorCode::ToolApprovalRequired,
                                    "Codex permission profile exceeds the persistence and UI limit",
                                    false,
                                ),
                            );
                        }
                    },
                }
                Some(profile)
            },
        }
    } else {
        None
    };
    let id = match native_approval_id(run_id.as_str(), &pid) {
        Ok(id) => id,
        Err(e) => return Err(e),
    };
    let created_at = now();
    Ok(
        NativeApprovalState {
            id,
            run_id,
            protocol_request_id: pid,
            method,
            kind,
            thread_id,
            turn_id,
            item_id,
            target,
            requested_permissions: profile,
            status: NativeApprovalStatus::Pending,
            granted_scope: None,
            grants_requested_permissions: false,
            created_at,
            decided_at: None,
        },
    )
}

/// The answer an approval gives its agent: none while pending; an approval
/// without a recorded scope has no usable answer either.
pub open spec fn decision_of(approval: NativeApprovalState) -> Option<ApprovalDecision> {
    match approval.status {
        NativeApprovalStatus::Approved => match approval.granted_scope {
            Some(scope) => Some(
                ApprovalDecision::Approved {
                    scope,
                    with_permissions: approval.grants_requested_permissions
                        && approval.requested_permissions.is_some(),
                },
            ),
            None => None,
        },
        NativeApprovalStatus::Denied => Some(ApprovalDecision::Denied),
        NativeApprovalStatus::Cancelled | NativeApprovalStatus::Expired => Some(
            ApprovalDecision::Cancelled,
        ),
        NativeApprovalStatus::Pending => None,
    }
}

/// The answer an approval gives its agent (see `decision_of`).
pub fn approval_decision(approval: &NativeApprovalState) -> (decision: Option<ApprovalDecision>)
    ensures
        decision == decision_of(*approval),
{
    match approval.status {
        NativeApprovalStatus::Approved => match approval.granted_scope {
            Some(scope) => Some(
                ApprovalDecision::Approved {
                    scope,
                    with_permissions: approval.grants_requested_permissions
                        && approval.requested_permissions.is_some(),
                },
            ),
            None => None,
        },
        NativeApprovalStatus::Denied => Some(ApprovalDecision::Denied),
        NativeApprovalStatus::Cancelled | NativeApprovalStatus::Expired => Some(
            ApprovalDecision::Cancelled,
        ),
        NativeApprovalStatus::Pending => None,
    }
}

/// The paths of a file-change target whose Project boundary must be proven:
/// the grant root first, then each changed file.
pub open spec fn file_change_paths(target: NativeApprovalTarget) -> Seq<Seq<char>> {
    match target {
        NativeApprovalTarget::FileChange { grant_root, changes } => match grant_root {
            Some(root) => seq![root@] + texts(changes@),
            None => texts(changes@),
        },
        _ => Seq::empty(),
    }
}

/// The error of a grant refused by policy.
pub open spec fn policy_error(message: Seq<char>) -> (ErrorCode, Seq<char>, bool) {
    (ErrorCode::InvalidConfiguration, message, false)
}

/// What approving `approval` for `scope` requires, in order: the checks that
/// refuse it outright, then the paths whose Project boundary must be proven
/// one by one, then the error that still refuses it after those paths (if
/// any). Command approvals need a `FullAccess` Run; file approvals under
/// `WorkspaceWrite` list their paths; permission approvals need an explicit
/// profile, a turn or session scope, and the ceiling checks of `grant_targets`;
/// other approvals cannot be granted for a turn.
pub open spec fn grant_plan(
    approval: NativeApprovalState,
    scope: ApprovalGrantScope,
    limits: PermissionPolicyLimits,
    run_profile: RunPermissionProfile,
) -> Outcome<(Seq<Seq<char>>, Option<(ErrorCode, Seq<char>, bool)>)> {
    if sandbox_rank(run_profile.sandbox) > sandbox_rank(limits.max_sandbox) {
        Err(policy_error("Run permission snapshot exceeds the administrator sandbox ceiling"@))
    } else if scope == ApprovalGrantScope::Session && !limits.allow_session_approvals {
        Err(policy_error("session-scoped approvals are disabled by administrator policy"@))
    } else if !target_reviewable(approval.kind, approval.target) {
        Err(target_error())
    } else if approval.target is Command && run_profile.sandbox != SandboxAccess::FullAccess {
        Err(
            policy_error(
                "command approval requires an explicitly selected full_access Run; sandbox confinement cannot be proven"@,
            ),
        )
    } else if approval.target is FileChange && run_profile.sandbox == SandboxAccess::ReadOnly {
        Err(policy_error("file approval exceeds the read_only Run sandbox"@))
    } else {
        let file_paths = if approval.target is FileChange && run_profile.sandbox
            == SandboxAccess::WorkspaceWrite {
            file_change_paths(approval.target)
        } else {
            Seq::empty()
        };
        if approval.kind == NativeApprovalKind::Permissions {
            match approval.requested_permissions {
                None => Err(policy_error("permission approval has no explicit permission profile"@)),
                Some(permissions) => if scope == ApprovalGrantScope::OneShot {
                    Err(
                        policy_error(
                            "Codex permission approvals support turn or session scope, not one-shot scope"@,
                        ),
                    )
                } else {
                    match grant_targets(permissions, run_profile, limits) {
                        Err(e) => Err(e),
                        Ok((paths, unprovable)) => Ok(
                            (
                                file_paths + paths,
                                if unprovable {
                                    Some(unprovable_grant_error())
                                } else {
                                    None
                                },
                            ),
                        ),
                    }
                },
            }
        } else if scope == ApprovalGrantScope::Turn {
            Ok(
                (
                    file_paths,
                    Some(
                        policy_error(
                            "Codex command and file approvals support one-shot or session scope, not turn scope"@,
                        ),
                    ),
                ),
            )
        } else {
            Ok((file_paths, None))
        }
    }
}

/// The boundary checks an approval grant still needs, and the error that
/// refuses it once they pass (if any).
#[derive(Debug)]
pub struct GrantPlan {
    pub paths: Vec<String>,
    pub after: Option<ControlError>,
}

fn push_texts(out: &mut Vec<String>, values: &Vec<String>)
    ensures
        texts(final(out)@) == texts(old(out)@) + texts(values@),
{
    let ghost start = texts(out@);
    let mut i: usize = 0;
    while i < values.len()
        invariant
            i <= values@.len(),
            texts(out@) == start + texts(values@).take(i as int),
        decreases values.len() - i,
    {
        let ghost before = out@;
        out.push(values[i].clone());
        proof {
            assert(texts(out@) =~= texts(before).push(texts(values@)[i as int]));
            assert(texts(values@).take(i + 1) =~= texts(values@).take(i as int).push(
                texts(values@)[i as int],
            ));
        }
        i = i + 1;
    }
    proof {
        assert(texts(values@).take(values@.len() as int) =~= texts(values@));
    }
}

/// The plan for approving `approval` for `scope` (see `grant_plan`).
pub fn native_approval_grant_plan(
    approval: &NativeApprovalState,
    scope: ApprovalGrantScope,
    limits: PermissionPolicyLimits,
    run_profile: RunPermissionProfile,
) -> (result: Result<GrantPlan, ControlError>)
    ensures
        match (result, grant_plan(*approval, scope, limits, run_profile)) {
            (Ok(plan), Ok((paths, after))) => texts(plan.paths@) == paths && match (plan.after, after) {
                (None, None) => true,
                (Some(e), Some(spec)) => is_error(e, spec.0, spec.1, spec.2),
                _ => false,
            },
            (Err(e), Err(spec)) => is_error(e, spec.0, spec.1, spec.2),
            _ => false,
        },
{
    if rank(run_profile.sandbox) > rank(limits.max_sandbox) {
        return Err(
            control_error(
                ErrorCode::InvalidConfiguration,
                "Run permission snapshot exceeds the administrator sandbox ceiling",
                false,
            ),
        );
    }
    if scope == ApprovalGrantScope::Session && !limits.allow_session_approvals {
        return Err(
            control_error(
                ErrorCode::InvalidConfiguration,
                "session-scoped approvals are disabled by administrator policy",
                false,
            ),
        );
    }
    match validate_native_approval_target(approval.kind, &approval.target) {
        Ok(()) => {},
        Err(e) => return Err(e),
    }
    let mut paths: Vec<String> = Vec::new();
    match &approval.target {
        NativeApprovalTarget::Command { .. } => {
            if run_profile.sandbox != SandboxAccess::FullAccess {
                return Err(
                    control_error(
                        ErrorCode::InvalidConfiguration,
                        "command approval requires an explicitly selected full_access Run; sandbox confinement cannot be proven",
                        false,
                    ),
                );
            }
        },
        NativeApprovalTarget::FileChange { grant_root, changes } => {
            if run_profile.sandbox == SandboxAccess::ReadOnly {
                return Err(
                    control_error(
                        ErrorCode::InvalidConfiguration,
                        "file approval exceeds the read_only Run sandbox",
                        false,
                    ),
                );
            }
            if run_profile.sandbox == SandboxAccess::WorkspaceWrite {
                match grant_root {
                    Some(root) => {
                        paths.push(root.clone());
                    },
                    None => {},
                }
                push_texts(&mut paths, changes);
                proof {
                    assert(texts(paths@) =~= file_change_paths(approval.target));
                }
            }
        },
        _ => {},
    }
    proof {
        assert(texts(paths@) =~= (if approval.target is FileChange && run_profile.sandbox
            == SandboxAccess::WorkspaceWrite {
            file_change_paths(approval.target)
        } else {
            Seq::empty()
        }));
    }
    if approval.kind == NativeApprovalKind::Permissions {
        let permissions = match &approval.requested_permissions {
            None => {
                return Err(
                    control_error(
                        ErrorCode::InvalidConfiguration,
                        "permission approval has no explicit permission profile",
                        false,
                    ),
                );
            },
            Some(p) => p,
        };
        if scope == ApprovalGrantScope::OneShot {
            return Err(
                control_error(
                    ErrorCode::InvalidConfiguration,
                    "Codex permission approvals support turn or session scope, not one-shot scope",
                    false,
                ),
            );
        }
        let targets = match grant_ceiling_targets(permissions, run_profile, limits) {
            Ok(t) => t,
            Err(e) => return Err(e),
        };
        push_texts(&mut paths, &targets.paths);
        let after = if targets.unprovable {
            Some(
                control_error(
                    ErrorCode::InvalidConfiguration,
                    "filesystem grant cannot be proven to stay inside the Project boundary",
                    false,
                ),
            )
        } else {
            None
        };
        Ok(GrantPlan { paths, after })
    } else if scope == ApprovalGrantScope::Turn {
        Ok(
            GrantPlan {
                paths,
                after: Some(
                    control_error(
                        ErrorCode::InvalidConfiguration,
                        "Codex command and file approvals support one-shot or session scope, not turn scope",
                        false,
                    ),
                ),
            },
        )
    } else {
        Ok(GrantPlan { paths, after: None })
    }
}

/// Two protocol request ids are the same.
pub open spec fn same_protocol_id(a: ProtocolRequestId, b: ProtocolRequestId) -> bool {
    match (a, b) {
        (ProtocolRequestId::Text(x), ProtocolRequestId::Text(y)) => x@ == y@,
        (ProtocolRequestId::Integer(m), ProtocolRequestId::Integer(n)) => m == n,
        _ => false,
    }
}

/// Two approval targets are the same.
pub open spec fn same_target(a: NativeApprovalTarget, b: NativeApprovalTarget) -> bool {
    match (a, b) {
        (
            NativeApprovalTarget::Command { command: c1, cwd: w1 },
            NativeApprovalTarget::Command { command: c2, cwd: w2 },
        ) => c1@ == c2@ && w1@ == w2@,
        (NativeApprovalTarget::Network { host: h1 }, NativeApprovalTarget::Network { host: h2 }) => h1@
            == h2@,
        (
            NativeApprovalTarget::FileChange { grant_root: r1, changes: c1 },
            NativeApprovalTarget::FileChange { grant_root: r2, changes: c2 },
        ) => opt_view(r1) == opt_view(r2) && texts(c1@) == texts(c2@),
        (NativeApprovalTarget::Permissions { cwd: w1 }, NativeApprovalTarget::Permissions { cwd: w2 }) => w1@
            == w2@,
        _ => false,
    }
}

/// Two filesystem locations are the same.
pub open spec fn same_path(a: FileSystemPath, b: FileSystemPath) -> bool {
    match (a, b) {
        (FileSystemPath::Path(p), FileSystemPath::Path(q)) => p@ == q@,
        (FileSystemPath::GlobPattern(p), FileSystemPath::GlobPattern(q)) => p@ == q@,
        (
            FileSystemPath::Special(SpecialPath::ProjectRoots { subpath: s1 }),
            FileSystemPath::Special(SpecialPath::ProjectRoots { subpath: s2 }),
        ) => opt_view(s1) == opt_view(s2),
        (
            FileSystemPath::Special(SpecialPath::Unknown { raw: r1 }),
            FileSystemPath::Special(SpecialPath::Unknown { raw: r2 }),
        ) => r1@ == r2@,
        (
            FileSystemPath::Special(SpecialPath::Other { name: n1 }),
            FileSystemPath::Special(SpecialPath::Other { name: n2 }),
        ) => n1@ == n2@,
        _ => false,
    }
}

/// Two entry lists grant the same locations with the same access, in order.
pub open spec fn same_entries(a: Seq<FileSystemEntry>, b: Seq<FileSystemEntry>) -> bool {
    a.len() == b.len() && forall|i: int|
        0 <= i < a.len() ==> (#[trigger] a[i]).access == b[i].access && same_path(a[i].path, b[i].path)
}

/// Two filesystem requests are the same.
pub open spec fn same_file_system(a: FileSystemPermissions, b: FileSystemPermissions) -> bool {
    texts(a.read@) == texts(b.read@) && texts(a.write@) == texts(b.write@) && same_entries(
        a.entries@,
        b.entries@,
    ) && a.glob_scan_max_depth == b.glob_scan_max_depth
}

/// Two optional permission profiles are the same.
pub open spec fn same_profile(a: Option<NativePermissionProfile>, b: Option<NativePermissionProfile>) -> bool {
    match (a, b) {
        (None, None) => true,
        (Some(p), Some(q)) => (match (p.network, q.network) {
            (None, None) => true,
            (Some(m), Some(n)) => m.enabled == n.enabled,
            _ => false,
        }) && (match (p.file_system, q.file_system) {
            (None, None) => true,
            (Some(f), Some(g)) => same_file_system(f, g),
            _ => false,
        }),
        _ => false,
    }
}

/// A repeated request carries the correlation of the recorded one: protocol
/// id, thread, turn, item, target and requested permissions.
pub open spec fn same_correlation(a: NativeApprovalState, b: NativeApprovalState) -> bool {
    &&& same_protocol_id(a.protocol_request_id, b.protocol_request_id)
    &&& a.thread_id@ == b.thread_id@
    &&& a.turn_id@ == b.turn_id@
    &&& a.item_id@ == b.item_id@
    &&& same_target(a.target, b.target)
    &&& same_profile(a.requested_permissions, b.requested_permissions)
}


fn opt_texts_equal(a: &Option<String>, b: &Option<String>) -> (equal: bool)
    ensures
        equal == (opt_view(*a) == opt_view(*b)),
{
    match (a, b) {
        (None, None) => true,
        (Some(x), Some(y)) => str_equals(x.as_str(), y.as_str()),
        _ => false,
    }
}

fn protocol_ids_equal(a: &ProtocolRequestId, b: &ProtocolRequestId) -> (equal: bool)
    ensures
        equal == same_protocol_id(*a, *b),
{
    match (a, b) {
        (ProtocolRequestId::Text(x), ProtocolRequestId::Text(y)) => str_equals(x.as_str(), y.as_str()),
        (ProtocolRequestId::Integer(m), ProtocolRequestId::Integer(n)) => *m == *n,
        _ => false,
    }
}

fn targets_equal(a: &NativeApprovalTarget, b: &NativeApprovalTarget) -> (equal: bool)
    ensures
        equal == same_target(*a, *b),
{
    match (a, b) {
        (
            NativeApprovalTarget::Command { command: c1, cwd: w1 },
            NativeApprovalTarget::Command { command: c2, cwd: w2 },
        ) => str_equals(c1.as_str(), c2.as_str()) && str_equals(w1.as_str(), w2.as_str()),
        (NativeApprovalTarget::Network { host: h1 }, NativeApprovalTarget::Network { host: h2 }) => str_equals(
            h1.as_str(),
            h2.as_str(),
        ),
        (
            NativeApprovalTarget::FileChange { grant_root: r1, changes: c1 },
            NativeApprovalTarget::FileChange { grant_root: r2, changes: c2 },
        ) => opt_texts_equal(r1, r2) && texts_equal(c1, c2),
        (NativeApprovalTarget::Permissions { cwd: w1 }, NativeApprovalTarget::Permissions { cwd: w2 }) => str_equals(
            w1.as_str(),
            w2.as_str(),
        ),
        _ => false,
    }
}

fn paths_equal(a: &FileSystemPath, b: &FileSystemPath) -> (equal: bool)
    ensures
        equal == same_path(*a, *b),
{
    match (a, b) {
        (FileSystemPath::Path(p), FileSystemPath::Path(q)) => str_equals(p.as_str(), q.as_str()),
        (FileSystemPath::GlobPattern(p), FileSystemPath::GlobPattern(q)) => str_equals(
            p.as_str(),
            q.as_str(),
        ),
        (
            FileSystemPath::Special(SpecialPath::ProjectRoots { subpath: s1 }),
            FileSystemPath::Special(SpecialPath::ProjectRoots { subpath: s2 }),
        ) => opt_texts_equal(s1, s2),
        (
            FileSystemPath::Special(SpecialPath::Unknown { raw: r1 }),
            FileSystemPath::Special(SpecialPath::Unknown { raw: r2 }),
        ) => str_equals(r1.as_str(), r2.as_str()),
        (
            FileSystemPath::Special(SpecialPath::Other { name: n1 }),
            FileSystemPath::Special(SpecialPath::Other { name: n2 }),
        ) => str_equals(n1.as_str(), n2.as_str()),
        _ => false,
    }
}

fn entries_equal(a: &Vec<FileSystemEntry>, b: &Vec<FileSystemEntry>) -> (equal: bool)
    ensures
        equal == same_entries(a@, b@),
{
    if a.len() != b.len() {
        return false;
    }
    let mut i: usize = 0;
    while i < a.len()
        invariant
            i <= a@.len(),
            a@.len() == b@.len(),
            forall|j: int|
                0 <= j < i ==> (#[trigger] a@[j]).access == b@[j].access && same_path(
                    a@[j].path,
                    b@[j].path,
                ),
        decreases a.len() - i,
    {
        if a[i].access != b[i].access || !paths_equal(&a[i].path, &b[i].path) {
            return false;
        }
        i = i + 1;
    }
    true
}

fn profiles_equal(a: &Option<NativePermissionProfile>, b: &Option<NativePermissionProfile>) -> (equal:
    bool)
    ensures
        equal == same_profile(*a, *b),
{
    match (a, b) {
        (None, None) => true,
        (Some(p), Some(q)) => {
            let network = match (&p.network, &q.network) {
                (None, None) => true,
                (Some(m), Some(n)) => m.enabled == n.enabled,
                _ => false,
            };
            let file_system = match (&p.file_system, &q.file_system) {
                (None, None) => true,
                (Some(f), Some(g)) => texts_equal(&f.read, &g.read) && texts_equal(&f.write, &g.write)
                    && entries_equal(&f.entries, &g.entries) && f.glob_scan_max_depth
                    == g.glob_scan_max_depth,
                _ => false,
            };
            network && file_system
        },
        _ => false,
    }
}

/// Whether a repeated request carries the recorded correlation (see `same_correlation`).
pub fn same_approval_correlation(a: &NativeApprovalState, b: &NativeApprovalState) -> (same: bool)
    ensures
        same == same_correlation(*a, *b),
{
    protocol_ids_equal(&a.protocol_request_id, &b.protocol_request_id) && str_equals(
        a.thread_id.as_str(),
        b.thread_id.as_str(),
    ) && str_equals(a.turn_id.as_str(), b.turn_id.as_str()) && str_equals(
        a.item_id.as_str(),
        b.item_id.as_str(),
    ) && targets_equal(&a.target, &b.target) && profiles_equal(
        &a.requested_permissions,
        &b.requested_permissions,
    )
}

} // verus!
