use ait_application::approvals::{
    native_approval_record, ApprovalGrantScope, ApprovalRequest, NativeApprovalKind,
    NativeApprovalState, NativeApprovalStatus, NativeApprovalTarget, RawRequestId,
    RequestedPermissions,
};
use ait_application::catalog::{AgentConfiguration, AgentProvider};
use ait_application::errors::ErrorCode;
use ait_application::permissions::{
    AgentMode, ApprovalMode, PermissionPolicyLimits, RunPermissionProfile, SandboxAccess,
};
use ait_application::resolution::{
    admit_native_approval, expire_native_approval, plan_native_approval_decision,
    record_native_approval_decision, Admission, ApprovalVerdict, DecisionStep,
    NativeApprovalAction,
};
use ait_application::runs::{ProjectRecord, RunJournal, RunRecord, SessionRecord, WorkingSet};

fn approval(request_id: i64, target: NativeApprovalTarget, kind: NativeApprovalKind) -> NativeApprovalState {
    native_approval_record(ApprovalRequest {
        run_id: "r1".into(),
        protocol_request_id: RawRequestId::Integer(request_id),
        method: "approve".into(),
        kind,
        thread_id: "t".into(),
        turn_id: "u".into(),
        item_id: "i".into(),
        target,
        requested_permissions: RequestedPermissions::Absent,
    })
    .unwrap()
}

fn command_approval(request_id: i64) -> NativeApprovalState {
    approval(
        request_id,
        NativeApprovalTarget::Command {
            command: "ls".into(),
            cwd: "/".into(),
        },
        NativeApprovalKind::CommandExecution,
    )
}

fn state(status: &str, sandbox: SandboxAccess) -> WorkingSet {
    WorkingSet {
        projects: vec![ProjectRecord {
            id: "p".into(),
            name: "Project".into(),
            workdir: "/work/p".into(),
            root_message_id: "root".into(),
            repo_url: None,
            base_commit: "a".repeat(40),
            default_agent_id: None,
            revision: 1,
        }],
        sessions: vec![SessionRecord {
            id: "s".into(),
            project_id: "p".into(),
            agent_id: "a".into(),
            name: String::new(),
            title: None,
            description: String::new(),
            title_generation_started: false,
            archived: false,
            current_message_id: "m".into(),
            active_run_id: Some("r1".into()),
            version: 1,
        }],
        journals: vec![RunJournal {
            run_id: "r1".into(),
            operation_id: "op".into(),
            lease_epoch: 0,
            baseline_ref: None,
            result: None,
        }],
        runs: vec![RunRecord {
            id: "r1".into(),
            project_id: "p".into(),
            session_id: Some("s".into()),
            status: status.into(),
            phase: Some("waiting_approval".into()),
            operation_id: Some("op".into()),
            lease_epoch: 0,
            error: None,
            permission_profile: RunPermissionProfile {
                sandbox,
                approval: ApprovalMode::OnRequest,
            },
            agent_id: "a".into(),
            agent_revision: 1,
            config: AgentConfiguration {
                provider_id: "builtin-codex".into(),
                model: "gpt-5.6-sol".into(),
                reasoning_effort: None,
            },
            provider: AgentProvider {
                id: "builtin-codex".into(),
                name: "Codex".into(),
                kind: AgentMode::Codex,
                url: None,
                models: Vec::new(),
            },
            trigger: "manual".into(),
            cron_id: None,
            scheduled_at: None,
            workspace_base_commit: None,
            workspace_base_index_tree: None,
            base_message_id: "m".into(),
            last_message_id: None,
            native_approvals: Vec::new(),
        }],
    }
}

#[test]
fn admission_records_new_requests_and_recognises_repeats() {
    let mut s = state("running", SandboxAccess::FullAccess);
    let first = command_approval(1);
    let id = first.id.clone();
    assert_eq!(admit_native_approval(&mut s, first).unwrap(), Admission::Added);
    assert_eq!(s.runs[0].phase.as_deref(), Some("waiting_approval"));
    assert_eq!(s.runs[0].native_approvals.len(), 1);
    assert_eq!(admit_native_approval(&mut s, command_approval(1)).unwrap(), Admission::Existing(0));
    assert_eq!(s.runs[0].native_approvals.len(), 1);
    let mut reused = command_approval(1);
    reused.item_id = "other".into();
    let refused = admit_native_approval(&mut s, reused).unwrap_err();
    assert_eq!(refused.code, ErrorCode::ToolCallDuplicate);
    assert_eq!(s.runs[0].native_approvals[0].id, id);

    let mut finished = state("completed", SandboxAccess::FullAccess);
    let refused = admit_native_approval(&mut finished, command_approval(2)).unwrap_err();
    assert_eq!(refused.message, "native approval belongs to a terminal Run");
}

#[test]
fn decisions_are_checked_then_recorded_once() {
    let mut s = state("running", SandboxAccess::FullAccess);
    let pending = command_approval(1);
    let id = pending.id.clone();
    admit_native_approval(&mut s, pending).unwrap();
    let missing = plan_native_approval_decision(&s, "r1", "nope", NativeApprovalAction::Deny, None, PermissionPolicyLimits::default())
        .err()
        .unwrap();
    assert_eq!(missing.message, "native approval request not found");
    let scoped_denial = plan_native_approval_decision(
        &s,
        "r1",
        &id,
        NativeApprovalAction::Deny,
        Some(ApprovalGrantScope::OneShot),
        PermissionPolicyLimits::default(),
    )
    .err()
    .unwrap();
    assert_eq!(scoped_denial.message, "denial cannot carry an authorization scope");
    let unscoped = plan_native_approval_decision(&s, "r1", &id, NativeApprovalAction::Approve, None, PermissionPolicyLimits::default())
        .err()
        .unwrap();
    assert_eq!(unscoped.message, "approval scope is required when approving");
    let plan = plan_native_approval_decision(
        &s,
        "r1",
        &id,
        NativeApprovalAction::Approve,
        Some(ApprovalGrantScope::Session),
        PermissionPolicyLimits::default(),
    )
    .ok()
    .unwrap();
    match &plan.step {
        DecisionStep::Approve { scope, project_root, plan } => {
            assert_eq!(*scope, ApprovalGrantScope::Session);
            assert_eq!(project_root, "/work/p");
            assert!(plan.paths.is_empty());
            assert!(plan.after.is_none());
        }
        other => panic!("approval expected, got {other:?}"),
    }
    let mut outbox = Vec::new();
    record_native_approval_decision(
        &mut s.runs[plan.run_index],
        plan.approval_index,
        ApprovalVerdict::Approve(ApprovalGrantScope::Session),
        &mut outbox,
    );
    assert_eq!(outbox.len(), 1);
    assert_eq!(outbox[0].kind, "run.approval_resolved");
    assert_eq!(outbox[0].entity_id.as_deref(), Some(s.runs[0].id.as_str()));
    let decided = &s.runs[0].native_approvals[0];
    assert_eq!(decided.status, NativeApprovalStatus::Approved);
    assert_eq!(decided.granted_scope, Some(ApprovalGrantScope::Session));
    assert!(decided.grants_requested_permissions);
    assert!(decided.decided_at.is_some());
    assert_eq!(s.runs[0].phase.as_deref(), Some("calling_agent"));
    let again = plan_native_approval_decision(&s, "r1", &id, NativeApprovalAction::Deny, None, PermissionPolicyLimits::default())
        .err()
        .unwrap();
    assert_eq!(again.message, "native approval request is no longer pending");
}

#[test]
fn cancellation_of_an_approval_cancels_the_run() {
    let mut s = state("running", SandboxAccess::FullAccess);
    let pending = command_approval(1);
    let id = pending.id.clone();
    admit_native_approval(&mut s, pending).unwrap();
    let scoped = plan_native_approval_decision(
        &s,
        "r1",
        &id,
        NativeApprovalAction::Cancel,
        Some(ApprovalGrantScope::Turn),
        PermissionPolicyLimits::default(),
    )
    .err()
    .unwrap();
    assert_eq!(scoped.message, "cancellation cannot carry an authorization scope");
    let plan = plan_native_approval_decision(&s, "r1", &id, NativeApprovalAction::Cancel, None, PermissionPolicyLimits::default())
        .ok()
        .unwrap();
    assert!(matches!(plan.step, DecisionStep::CancelRun));
    let terminal = state("failed", SandboxAccess::FullAccess);
    let refused = plan_native_approval_decision(&terminal, "r1", &id, NativeApprovalAction::Cancel, None, PermissionPolicyLimits::default())
        .err()
        .unwrap();
    assert_eq!(refused.code, ErrorCode::RunAlreadyTerminal);
}

#[test]
fn a_grant_refused_by_policy_is_reported_before_any_change() {
    let mut s = state("running", SandboxAccess::WorkspaceWrite);
    let pending = command_approval(1);
    let id = pending.id.clone();
    admit_native_approval(&mut s, pending).unwrap();
    let refused = plan_native_approval_decision(
        &s,
        "r1",
        &id,
        NativeApprovalAction::Approve,
        Some(ApprovalGrantScope::OneShot),
        PermissionPolicyLimits::default(),
    )
    .err()
    .unwrap();
    assert_eq!(refused.code, ErrorCode::InvalidConfiguration);
    assert_eq!(s.runs[0].native_approvals[0].status, NativeApprovalStatus::Pending);
}

#[test]
fn expiry_settles_only_pending_requests() {
    let mut s = state("running", SandboxAccess::FullAccess);
    admit_native_approval(&mut s, command_approval(1)).unwrap();
    admit_native_approval(&mut s, command_approval(2)).unwrap();
    assert!(expire_native_approval(&mut s, "r1", &RawRequestId::Integer(1)).unwrap());
    assert_eq!(s.runs[0].native_approvals[0].status, NativeApprovalStatus::Expired);
    assert_eq!(s.runs[0].phase.as_deref(), Some("waiting_approval"));
    assert!(!expire_native_approval(&mut s, "r1", &RawRequestId::Integer(1)).unwrap());
    assert!(!expire_native_approval(&mut s, "r1", &RawRequestId::Other).unwrap());
    assert!(!expire_native_approval(&mut s, "r1", &RawRequestId::Text("9".into())).unwrap());
    assert!(expire_native_approval(&mut s, "r1", &RawRequestId::Integer(2)).unwrap());
    assert_eq!(s.runs[0].phase.as_deref(), Some("calling_agent"));
    let missing = expire_native_approval(&mut s, "nope", &RawRequestId::Integer(2)).unwrap_err();
    assert_eq!(missing.message, "native approval Run not found");
}
