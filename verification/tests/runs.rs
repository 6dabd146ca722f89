use ait_application::approvals::{
    ApprovalRequest, NativeApprovalKind, NativeApprovalStatus, NativeApprovalTarget, RawRequestId,
    RequestedPermissions, native_approval_record,
};
use ait_application::catalog::{AgentConfiguration, AgentProvider};
use ait_application::errors::{DomainError, ErrorCode};
use ait_application::permissions::{AgentMode, ApprovalMode, RunPermissionProfile, SandboxAccess};
use ait_application::runs::{
    begin_integration, cancel_run, check_workspace_finish, claim_startup_recovery,
    claim_workspace_integration, ensure_current_lease, ensure_journal_lease, is_local_recovery_failure,
    is_terminal_workspace_status, persist_workspace_result, prepare_run_start, recovery_policy,
    set_run_settling, settle_workspace_run, start_run, ExecutionLease, FinishStep, ProjectRecord,
    RecoveryClaim, RecoveryPolicy, RunJournal, RunRecord, RunStart, SessionRecord,
    StartupRecoveryPlan, WorkingSet, WorkspaceFinalizationDecision, WorkspaceOutcome,
};
use ait_application::settings::{SettingValue, SettingsDocument};

fn run(id: &str, status: &str, kind: AgentMode) -> RunRecord {
    RunRecord {
        id: id.into(),
        project_id: "project".into(),
        session_id: Some("session".into()),
        status: status.into(),
        phase: Some(status.into()),
        operation_id: Some(format!("workspace-{id}")),
        lease_epoch: 3,
        error: None,
        permission_profile: RunPermissionProfile {
            sandbox: SandboxAccess::WorkspaceWrite,
            approval: ApprovalMode::OnRequest,
        },
        agent_id: "agent".into(),
        agent_revision: 1,
        config: AgentConfiguration {
            provider_id: "builtin-codex".into(),
            model: "gpt-5.6-sol".into(),
            reasoning_effort: None,
        },
        provider: AgentProvider {
            id: "builtin-codex".into(),
            name: "Codex".into(),
            kind,
            url: None,
            models: Vec::new(),
        },
        trigger: "manual".into(),
        cron_id: None,
        scheduled_at: None,
        workspace_base_commit: None,
        workspace_base_index_tree: None,
        base_message_id: "m0".into(),
        last_message_id: None,
        native_approvals: Vec::new(),
    }
}

fn state_with(run: RunRecord) -> WorkingSet {
    WorkingSet {
        projects: vec![ProjectRecord {
            id: "project".into(),
            name: "Project".into(),
            workdir: "/work/project".into(),
            root_message_id: "root".into(),
            repo_url: None,
            base_commit: "a".repeat(40),
            default_agent_id: None,
            revision: 1,
        }],
        sessions: vec![SessionRecord {
            id: "session".into(),
            project_id: "project".into(),
            agent_id: "agent".into(),
            name: String::new(),
            title: None,
            description: String::new(),
            title_generation_started: false,
            archived: false,
            current_message_id: "m0".into(),
            active_run_id: Some(run.id.clone()),
            version: 4,
        }],
        journals: vec![RunJournal {
            run_id: run.id.clone(),
            operation_id: format!("workspace-{}", run.id),
            lease_epoch: 3,
            baseline_ref: None,
            result: None,
        }],
        runs: vec![run],
    }
}

fn lease(id: &str, epoch: u64) -> ExecutionLease {
    ExecutionLease {
        run_id: id.into(),
        operation_id: format!("workspace-{id}"),
        lease_epoch: epoch,
    }
}

fn pending_approval(run_id: &str) -> ait_application::approvals::NativeApprovalState {
    native_approval_record(ApprovalRequest {
        run_id: run_id.into(),
        protocol_request_id: RawRequestId::Integer(1),
        method: "approve".into(),
        kind: NativeApprovalKind::CommandExecution,
        thread_id: "t".into(),
        turn_id: "u".into(),
        item_id: "i".into(),
        target: NativeApprovalTarget::Command {
            command: "ls".into(),
            cwd: "/".into(),
        },
        requested_permissions: RequestedPermissions::Absent,
    })
    .unwrap()
}

#[test]
fn terminal_statuses_are_recognised() {
    for status in ["completed", "failed", "cancelled", "limit_exceeded", "interrupted"] {
        assert!(is_terminal_workspace_status(status));
    }
    for status in ["queued", "running", "settling", "cancelling", ""] {
        assert!(!is_terminal_workspace_status(status));
    }
}

#[test]
fn cancelling_a_run_fences_its_leases_and_frees_its_session() {
    let mut r = run("r1", "running", AgentMode::Codex);
    r.native_approvals.push(pending_approval("r1"));
    let mut state = state_with(r);
    let index = cancel_run(&mut state, "r1", &mut Vec::new()).unwrap();
    let cancelled = &state.runs[index];
    assert_eq!(cancelled.status, "cancelled");
    assert_eq!(cancelled.phase.as_deref(), Some("terminal"));
    assert_eq!(cancelled.lease_epoch, 4);
    assert_eq!(cancelled.error.as_ref().unwrap().code, ErrorCode::RunCancelled);
    assert_eq!(cancelled.error.as_ref().unwrap().message, "run was cancelled");
    assert_eq!(cancelled.native_approvals[0].status, NativeApprovalStatus::Cancelled);
    assert!(cancelled.native_approvals[0].decided_at.is_some());
    assert_eq!(state.journals[0].lease_epoch, 4);
    assert!(state.sessions[0].active_run_id.is_none());
    assert_eq!(state.sessions[0].version, 5);
    assert!(ensure_current_lease(&state.runs[0], &lease("r1", 3)).is_err());
    assert!(ensure_journal_lease(&state.journals[0], &lease("r1", 3)).is_err());

    let again = cancel_run(&mut state, "r1", &mut Vec::new()).unwrap_err();
    assert_eq!(again.code, ErrorCode::RunAlreadyTerminal);
    assert_eq!(again.message, "run is already terminal");
    assert_eq!(cancel_run(&mut state, "missing", &mut Vec::new()).unwrap_err().code, ErrorCode::InvalidRun);
}

#[test]
fn integration_claims_exclude_cancellation() {
    let mut state = state_with(run("r1", "settling", AgentMode::Codex));
    let refused = claim_workspace_integration(&mut state, &lease("r1", 3)).unwrap_err();
    assert_eq!(refused.message, "workspace integration requires a durable result checkpoint");
    state.journals[0].result = Some("{}".into());
    assert!(claim_workspace_integration(&mut state, &lease("r1", 2)).is_err());
    let index = claim_workspace_integration(&mut state, &lease("r1", 3)).unwrap();
    assert_eq!(state.runs[index].phase.as_deref(), Some("integrating"));
    assert_eq!(claim_workspace_integration(&mut state, &lease("r1", 3)).unwrap(), index);
    let refused = cancel_run(&mut state, "r1", &mut Vec::new()).unwrap_err();
    assert_eq!(
        refused.message,
        "workspace integration has started; cancellation cannot replace its durable result"
    );
}

#[test]
fn leases_must_match_operation_and_epoch() {
    let state = state_with(run("r1", "running", AgentMode::Codex));
    assert!(ensure_current_lease(&state.runs[0], &lease("r1", 3)).is_ok());
    let stale = ensure_current_lease(&state.runs[0], &lease("r1", 2)).unwrap_err();
    assert_eq!(stale.message, "stale workspace execution lease");
    let mut other = lease("r1", 3);
    other.operation_id = "other".into();
    assert!(ensure_current_lease(&state.runs[0], &other).is_err());
    assert_eq!(
        ensure_journal_lease(&state.journals[0], &other).unwrap_err().message,
        "stale workspace result journal lease"
    );
}

fn settings(policy: &str) -> SettingsDocument {
    SettingsDocument {
        entries: vec![("runtime.recovery".into(), SettingValue::Text(policy.into()))],
    }
}

#[test]
fn recovery_policy_comes_from_the_settings() {
    assert_eq!(recovery_policy(&settings("ask")), RecoveryPolicy::Ask);
    assert_eq!(recovery_policy(&settings("fail")), RecoveryPolicy::Fail);
    assert_eq!(recovery_policy(&settings("other")), RecoveryPolicy::ResumeSafe);
    assert_eq!(
        recovery_policy(&SettingsDocument { entries: Vec::new() }),
        RecoveryPolicy::ResumeSafe
    );
    assert!(is_local_recovery_failure(ErrorCode::ProjectGitDirty));
    assert!(!is_local_recovery_failure(ErrorCode::RunRecoveryFailed));
}

#[test]
fn startup_recovery_claims_follow_status_and_policy() {
    let mut queued = state_with(run("r1", "queued", AgentMode::Codex));
    assert!(matches!(
        claim_startup_recovery(&mut queued, "r1", &settings("resume"), &mut Vec::new()).unwrap(),
        RecoveryClaim::Execute
    ));
    let mut done = state_with(run("r1", "completed", AgentMode::Codex));
    assert!(matches!(
        claim_startup_recovery(&mut done, "r1", &settings("fail"), &mut Vec::new()).unwrap(),
        RecoveryClaim::Skip
    ));
    let mut settling = state_with(run("r1", "settling", AgentMode::Codex));
    settling.journals[0].result = Some("{}".into());
    match claim_startup_recovery(&mut settling, "r1", &settings("resume"), &mut Vec::new()).unwrap() {
        RecoveryClaim::Finalize(lease) => {
            assert_eq!(lease.lease_epoch, 4);
            assert_eq!(lease.operation_id, "workspace-r1");
        }
        other => panic!("unexpected claim {other:?}"),
    }
    assert_eq!(settling.runs[0].phase.as_deref(), Some("reconciling_result"));
    assert_eq!(settling.journals[0].lease_epoch, 4);

    let mut incomplete = state_with(run("r1", "settling", AgentMode::Codex));
    assert!(matches!(
        claim_startup_recovery(&mut incomplete, "r1", &settings("resume"), &mut Vec::new()).unwrap(),
        RecoveryClaim::Recovered(0)
    ));
    assert_eq!(incomplete.runs[0].status, "interrupted");
    assert_eq!(incomplete.runs[0].error.as_ref().unwrap().code, ErrorCode::RunRecoveryFailed);

    let mut cancelling = state_with(run("r1", "cancelling", AgentMode::Codex));
    claim_startup_recovery(&mut cancelling, "r1", &settings("resume"), &mut Vec::new()).unwrap();
    assert_eq!(cancelling.runs[0].status, "cancelled");
    assert_eq!(cancelling.runs[0].error.as_ref().unwrap().code, ErrorCode::RunCancelled);

    let mut failing = state_with(run("r1", "running", AgentMode::Codex));
    claim_startup_recovery(&mut failing, "r1", &settings("fail"), &mut Vec::new()).unwrap();
    assert_eq!(failing.runs[0].status, "failed");
    assert_eq!(
        failing.runs[0].error.as_ref().unwrap().message,
        "run failed because the daemon restarted"
    );
    assert!(failing.sessions[0].active_run_id.is_none());
}

#[test]
fn the_startup_plan_lists_the_unfinished_runs() {
    let runs = vec![
        run("a", "queued", AgentMode::Codex),
        run("b", "completed", AgentMode::Codex),
        run("c", "settling", AgentMode::Codex),
    ];
    let plan = StartupRecoveryPlan::from_runs(&runs);
    assert_eq!(plan.len(), 2);
    assert!(!plan.is_empty());
    assert_eq!(plan.run_ids(), &vec!["a".to_string(), "c".to_string()]);
    assert!(StartupRecoveryPlan::from_runs(&Vec::new()).is_empty());
}

#[test]
fn integration_begins_once_unless_cancellation_won() {
    assert_eq!(begin_integration(WorkspaceFinalizationDecision::Open, false, true).unwrap(), true);
    assert_eq!(
        begin_integration(WorkspaceFinalizationDecision::Integrating, true, false).unwrap(),
        false
    );
    let cancelled = begin_integration(WorkspaceFinalizationDecision::Cancelled, false, true).unwrap_err();
    assert_eq!(cancelled.message, "run cancellation won before workspace integration");
    assert!(begin_integration(WorkspaceFinalizationDecision::Open, true, true).is_err());
    assert_eq!(
        begin_integration(WorkspaceFinalizationDecision::Open, false, false).unwrap_err().code,
        ErrorCode::RunRecoveryFailed
    );
}

#[test]
fn a_queued_run_starts_under_a_new_lease() {
    let mut state = state_with(run("r1", "queued", AgentMode::Codex));
    state.runs[0].operation_id = None;
    let index = match prepare_run_start(&state, "r1").unwrap() {
        RunStart::Start { index, baseline_workdir } => {
            assert_eq!(baseline_workdir.as_deref(), Some("/work/project"));
            index
        }
        RunStart::NotQueued => panic!("queued run expected"),
    };
    let lease = start_run(&mut state, index, Some("refs/heads/main".into()));
    assert_eq!(lease.operation_id, "workspace-r1");
    assert_eq!(lease.lease_epoch, 4);
    assert_eq!(state.runs[0].status, "running");
    assert_eq!(state.runs[0].phase.as_deref(), Some("calling_agent"));
    assert_eq!(state.journals.len(), 1);
    assert_eq!(state.journals[0].lease_epoch, 4);
    assert_eq!(state.journals[0].baseline_ref.as_deref(), Some("refs/heads/main"));
    assert!(matches!(prepare_run_start(&state, "r1").unwrap(), RunStart::NotQueued));

    let mut other = state_with(run("r2", "queued", AgentMode::OpenAI));
    other.projects.clear();
    assert!(matches!(
        prepare_run_start(&other, "r2").unwrap(),
        RunStart::Start { baseline_workdir: None, .. }
    ));
    let mut missing = state_with(run("r3", "queued", AgentMode::Codex));
    missing.projects.clear();
    assert_eq!(prepare_run_start(&missing, "r3").unwrap_err().code, ErrorCode::InvalidProject);
}

#[test]
fn results_are_checkpointed_once() {
    let mut state = state_with(run("r1", "running", AgentMode::Codex));
    let index = persist_workspace_result(&mut state, &lease("r1", 3), "{\"a\":1}".into()).unwrap();
    assert_eq!(state.runs[index].status, "settling");
    assert_eq!(state.runs[index].phase.as_deref(), Some("result_persisted"));
    assert_eq!(state.journals[0].result.as_deref(), Some("{\"a\":1}"));
    assert_eq!(persist_workspace_result(&mut state, &lease("r1", 3), "{\"a\":1}".into()).unwrap(), index);
    let different = persist_workspace_result(&mut state, &lease("r1", 3), "{}".into()).unwrap_err();
    assert_eq!(different.code, ErrorCode::RunNotResumable);
}

#[test]
fn running_runs_move_to_settling() {
    let mut state = state_with(run("r1", "running", AgentMode::Codex));
    assert!(set_run_settling(&mut state, &lease("r1", 3)).unwrap());
    assert_eq!(state.runs[0].status, "settling");
    assert!(!set_run_settling(&mut state, &lease("r1", 3)).unwrap());
    assert!(set_run_settling(&mut state, &lease("r1", 9)).is_err());
}

#[test]
fn finished_runs_take_their_terminal_status() {
    let mut state = state_with(run("r1", "running", AgentMode::Codex));
    state.runs[0].native_approvals.push(pending_approval("r1"));
    let outcome = WorkspaceOutcome::Completed("{}".into());
    let step = check_workspace_finish(&state, &lease("r1", 3), &outcome).unwrap();
    assert_eq!(step, FinishStep::Settle(0));
    settle_workspace_run(&mut state, 0, &outcome, Some("reply".into()));
    assert_eq!(state.runs[0].status, "completed");
    assert_eq!(state.runs[0].last_message_id.as_deref(), Some("reply"));
    assert_eq!(state.runs[0].native_approvals[0].status, NativeApprovalStatus::Expired);
    assert_eq!(state.sessions[0].current_message_id, "reply");
    assert!(state.sessions[0].active_run_id.is_none());
    assert_eq!(state.sessions[0].version, 6);
    assert_eq!(
        check_workspace_finish(&state, &lease("r1", 3), &outcome).unwrap(),
        FinishStep::AlreadyTerminal(0)
    );

    let mut cancelled = state_with(run("r1", "running", AgentMode::Codex));
    let failure = WorkspaceOutcome::Failed(DomainError {
        code: ErrorCode::RunCancelled,
        message: "stopped".into(),
        retryable: false,
        details: None,
        cause_id: None,
    });
    settle_workspace_run(&mut cancelled, 0, &failure, None);
    assert_eq!(cancelled.runs[0].status, "cancelled");
    assert_eq!(cancelled.runs[0].error.as_ref().unwrap().message, "stopped");

    let mut settling = state_with(run("r1", "settling", AgentMode::Codex));
    settle_workspace_run(&mut settling, 0, &failure, None);
    assert_eq!(settling.runs[0].status, "interrupted");
    assert_eq!(
        settling.runs[0].error.as_ref().unwrap().message,
        "checkpointed workspace result could not be integrated: stopped"
    );

    let mut journaled = state_with(run("r1", "settling", AgentMode::Codex));
    journaled.journals[0].result = Some("{\"a\":1}".into());
    let refused = check_workspace_finish(&journaled, &lease("r1", 3), &outcome).unwrap_err();
    assert_eq!(refused.message, "terminal settlement received a different workspace result");
}

#[test]
fn recovery_claims_queue_their_events() {
    let mut failing = state_with(run("r1", "running", AgentMode::Codex));
    let mut outbox = Vec::new();
    claim_startup_recovery(&mut failing, "r1", &settings("fail"), &mut outbox).unwrap();
    assert_eq!(outbox.len(), 1);
    assert_eq!(outbox[0].kind, "run.recovered");
    assert_eq!(outbox[0].entity_id.as_deref(), Some("r1"));
    let mut queued = state_with(run("r1", "queued", AgentMode::Codex));
    let mut outbox = Vec::new();
    claim_startup_recovery(&mut queued, "r1", &settings("resume"), &mut outbox).unwrap();
    assert!(outbox.is_empty());
    let mut settling = state_with(run("r1", "settling", AgentMode::Codex));
    settling.journals[0].result = Some("{}".into());
    let mut outbox = Vec::new();
    claim_startup_recovery(&mut settling, "r1", &settings("resume"), &mut outbox).unwrap();
    assert_eq!(outbox[0].kind, "run.recovery_claimed");
}
