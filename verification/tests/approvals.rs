use ait_application::approvals::{
    approval_decision, native_approval_grant_plan, native_approval_record,
    validate_native_approval_target, ApprovalDecision, ApprovalGrantScope, ApprovalRequest,
    NativeApprovalKind, NativeApprovalState, NativeApprovalStatus, NativeApprovalTarget,
    RawRequestId, RequestedPermissions,
};
use ait_application::errors::ErrorCode;
use ait_application::identity::ProtocolRequestId;
use ait_application::permissions::{
    ApprovalMode, FileSystemPermissions, NativePermissionProfile, PermissionPolicyLimits,
    RunPermissionProfile, SandboxAccess,
};
use sha2::{Digest, Sha256};

fn command() -> NativeApprovalTarget {
    NativeApprovalTarget::Command {
        command: "cargo test".into(),
        cwd: "/work".into(),
    }
}

fn request(kind: NativeApprovalKind, target: NativeApprovalTarget) -> ApprovalRequest {
    ApprovalRequest {
        run_id: "run-1".into(),
        protocol_request_id: RawRequestId::Integer(7),
        method: "item/commandExecution/requestApproval".into(),
        kind,
        thread_id: "thread".into(),
        turn_id: "turn".into(),
        item_id: "item".into(),
        target,
        requested_permissions: RequestedPermissions::Absent,
    }
}

fn profile() -> NativePermissionProfile {
    NativePermissionProfile {
        network: None,
        file_system: Some(FileSystemPermissions {
            read: vec!["docs".into()],
            write: Vec::new(),
            entries: Vec::new(),
            glob_scan_max_depth: None,
        }),
    }
}

fn expected_id(run_id: &str, request_json: &[u8]) -> String {
    let mut digest = Sha256::new();
    digest.update(run_id.as_bytes());
    digest.update([0]);
    digest.update(request_json);
    format!("native-{:x}", digest.finalize())
}

#[test]
fn a_valid_request_becomes_a_pending_record_with_a_derived_id() {
    let record = native_approval_record(request(NativeApprovalKind::CommandExecution, command())).unwrap();
    assert_eq!(record.id, expected_id("run-1", b"7"));
    assert_eq!(record.status, NativeApprovalStatus::Pending);
    assert!(matches!(record.protocol_request_id, ProtocolRequestId::Integer(7)));
    assert!(record.decided_at.is_none());
    assert!(record.created_at > 0);

    let mut text_id = request(NativeApprovalKind::CommandExecution, command());
    text_id.protocol_request_id = RawRequestId::Text("req \"1\"".into());
    let record = native_approval_record(text_id).unwrap();
    assert_eq!(record.id, expected_id("run-1", br#""req \"1\"""#));
}

#[test]
fn incomplete_correlation_is_refused_first() {
    let mut blank = request(NativeApprovalKind::CommandExecution, command());
    blank.thread_id = "  ".into();
    blank.protocol_request_id = RawRequestId::Other;
    let refused = native_approval_record(blank).unwrap_err();
    assert_eq!(refused.code, ErrorCode::ToolApprovalRequired);
    assert_eq!(refused.message, "native approval correlation is incomplete");

    let mut nul = request(NativeApprovalKind::CommandExecution, command());
    nul.item_id = "a\0b".into();
    assert!(native_approval_record(nul).is_err());

    let mut long_method = request(NativeApprovalKind::CommandExecution, command());
    long_method.method = "m".repeat(129);
    assert!(native_approval_record(long_method).is_err());
}

#[test]
fn request_ids_must_be_bounded_text_or_integers() {
    for raw in [
        RawRequestId::Other,
        RawRequestId::Text(String::new()),
        RawRequestId::Text("r".repeat(513)),
    ] {
        let mut bad = request(NativeApprovalKind::CommandExecution, command());
        bad.protocol_request_id = raw;
        assert_eq!(
            native_approval_record(bad).unwrap_err().message,
            "native approval request id must be a bounded string or integer"
        );
    }
}

#[test]
fn targets_must_match_the_kind_of_request() {
    assert!(validate_native_approval_target(NativeApprovalKind::LegacyCommand, &command()).is_ok());
    let network = NativeApprovalTarget::Network { host: "example.com".into() };
    assert!(validate_native_approval_target(NativeApprovalKind::CommandExecution, &network).is_ok());
    assert!(validate_native_approval_target(NativeApprovalKind::LegacyCommand, &network).is_err());
    let empty_change = NativeApprovalTarget::FileChange {
        grant_root: None,
        changes: Vec::new(),
    };
    assert_eq!(
        validate_native_approval_target(NativeApprovalKind::FileChange, &empty_change)
            .unwrap_err()
            .message,
        "native approval has no bounded, reviewable authorization target"
    );
    let too_many = NativeApprovalTarget::FileChange {
        grant_root: None,
        changes: (0..129).map(|i| format!("f{i}")).collect(),
    };
    assert!(validate_native_approval_target(NativeApprovalKind::LegacyPatch, &too_many).is_err());
    let rooted = NativeApprovalTarget::FileChange {
        grant_root: Some("/work".into()),
        changes: Vec::new(),
    };
    assert!(validate_native_approval_target(NativeApprovalKind::FileChange, &rooted).is_ok());
}

#[test]
fn permission_requests_need_a_valid_bounded_profile() {
    let permissions = NativeApprovalTarget::Permissions { cwd: "/work".into() };
    let absent = request(NativeApprovalKind::Permissions, permissions);
    assert_eq!(
        native_approval_record(absent).unwrap_err().message,
        "permission approval omitted its explicit permission profile"
    );
    let mut unparsable = request(
        NativeApprovalKind::Permissions,
        NativeApprovalTarget::Permissions { cwd: "/work".into() },
    );
    unparsable.requested_permissions = RequestedPermissions::Unparsable;
    assert_eq!(
        native_approval_record(unparsable).unwrap_err().message,
        "invalid Codex permission profile"
    );
    let mut oversized = request(
        NativeApprovalKind::Permissions,
        NativeApprovalTarget::Permissions { cwd: "/work".into() },
    );
    oversized.requested_permissions = RequestedPermissions::Parsed {
        profile: profile(),
        encoded_len: Some(128 * 1024 + 1),
    };
    assert_eq!(
        native_approval_record(oversized).unwrap_err().message,
        "Codex permission profile exceeds the persistence and UI limit"
    );
    let mut valid = request(
        NativeApprovalKind::Permissions,
        NativeApprovalTarget::Permissions { cwd: "/work".into() },
    );
    valid.requested_permissions = RequestedPermissions::Parsed {
        profile: profile(),
        encoded_len: Some(64),
    };
    let record = native_approval_record(valid).unwrap();
    assert!(record.requested_permissions.is_some());
}

fn approved(status: NativeApprovalStatus, scope: Option<ApprovalGrantScope>) -> NativeApprovalState {
    let mut record = native_approval_record(request(NativeApprovalKind::CommandExecution, command())).unwrap();
    record.status = status;
    record.granted_scope = scope;
    record
}

#[test]
fn decisions_follow_the_status() {
    assert_eq!(approval_decision(&approved(NativeApprovalStatus::Pending, None)), None);
    assert_eq!(
        approval_decision(&approved(NativeApprovalStatus::Denied, None)),
        Some(ApprovalDecision::Denied)
    );
    assert_eq!(
        approval_decision(&approved(NativeApprovalStatus::Expired, None)),
        Some(ApprovalDecision::Cancelled)
    );
    assert_eq!(approval_decision(&approved(NativeApprovalStatus::Approved, None)), None);
    assert_eq!(
        approval_decision(&approved(
            NativeApprovalStatus::Approved,
            Some(ApprovalGrantScope::Session)
        )),
        Some(ApprovalDecision::Approved {
            scope: ApprovalGrantScope::Session,
            with_permissions: false
        })
    );
}

fn run_profile(sandbox: SandboxAccess) -> RunPermissionProfile {
    RunPermissionProfile {
        sandbox,
        approval: ApprovalMode::OnRequest,
    }
}

#[test]
fn command_grants_need_a_full_access_run() {
    let approval = approved(NativeApprovalStatus::Pending, None);
    let limits = PermissionPolicyLimits::default();
    let refused = native_approval_grant_plan(
        &approval,
        ApprovalGrantScope::OneShot,
        limits,
        run_profile(SandboxAccess::WorkspaceWrite),
    )
    .err()
    .unwrap();
    assert!(refused.message.starts_with("command approval requires an explicitly selected full_access Run"));
    let plan = native_approval_grant_plan(
        &approval,
        ApprovalGrantScope::OneShot,
        limits,
        run_profile(SandboxAccess::FullAccess),
    )
    .ok()
    .unwrap();
    assert!(plan.paths.is_empty());
    assert!(plan.after.is_none());
    let turn = native_approval_grant_plan(
        &approval,
        ApprovalGrantScope::Turn,
        limits,
        run_profile(SandboxAccess::FullAccess),
    )
    .ok()
    .unwrap();
    assert_eq!(
        turn.after.unwrap().message,
        "Codex command and file approvals support one-shot or session scope, not turn scope"
    );
    let no_sessions = PermissionPolicyLimits {
        max_sandbox: SandboxAccess::FullAccess,
        allow_session_approvals: false,
    };
    let refused = native_approval_grant_plan(
        &approval,
        ApprovalGrantScope::Session,
        no_sessions,
        run_profile(SandboxAccess::FullAccess),
    )
    .err()
    .unwrap();
    assert_eq!(refused.message, "session-scoped approvals are disabled by administrator policy");
}

#[test]
fn file_grants_under_workspace_write_list_their_paths() {
    let mut change = native_approval_record(request(
        NativeApprovalKind::FileChange,
        NativeApprovalTarget::FileChange {
            grant_root: Some("src".into()),
            changes: vec!["src/a.rs".into(), "src/b.rs".into()],
        },
    ))
    .unwrap();
    change.status = NativeApprovalStatus::Pending;
    let limits = PermissionPolicyLimits::default();
    let plan = native_approval_grant_plan(
        &change,
        ApprovalGrantScope::Session,
        limits,
        run_profile(SandboxAccess::WorkspaceWrite),
    )
    .ok()
    .unwrap();
    assert_eq!(plan.paths, vec!["src".to_string(), "src/a.rs".into(), "src/b.rs".into()]);
    let read_only = native_approval_grant_plan(
        &change,
        ApprovalGrantScope::Session,
        limits,
        run_profile(SandboxAccess::ReadOnly),
    )
    .err()
    .unwrap();
    assert_eq!(read_only.message, "file approval exceeds the read_only Run sandbox");
    let full = native_approval_grant_plan(
        &change,
        ApprovalGrantScope::OneShot,
        limits,
        run_profile(SandboxAccess::FullAccess),
    )
    .ok()
    .unwrap();
    assert!(full.paths.is_empty());
}

#[test]
fn permission_grants_need_turn_or_session_scope() {
    let mut valid = request(
        NativeApprovalKind::Permissions,
        NativeApprovalTarget::Permissions { cwd: "/work".into() },
    );
    valid.requested_permissions = RequestedPermissions::Parsed {
        profile: profile(),
        encoded_len: Some(64),
    };
    let record = native_approval_record(valid).unwrap();
    let limits = PermissionPolicyLimits::default();
    let one_shot = native_approval_grant_plan(
        &record,
        ApprovalGrantScope::OneShot,
        limits,
        run_profile(SandboxAccess::ReadOnly),
    )
    .err()
    .unwrap();
    assert_eq!(
        one_shot.message,
        "Codex permission approvals support turn or session scope, not one-shot scope"
    );
    let plan = native_approval_grant_plan(
        &record,
        ApprovalGrantScope::Turn,
        limits,
        run_profile(SandboxAccess::ReadOnly),
    )
    .ok()
    .unwrap();
    assert_eq!(plan.paths, vec!["docs".to_string()]);
    let over = native_approval_grant_plan(
        &record,
        ApprovalGrantScope::Turn,
        PermissionPolicyLimits {
            max_sandbox: SandboxAccess::ReadOnly,
            allow_session_approvals: true,
        },
        run_profile(SandboxAccess::FullAccess),
    )
    .err()
    .unwrap();
    assert_eq!(
        over.message,
        "Run permission snapshot exceeds the administrator sandbox ceiling"
    );
}
