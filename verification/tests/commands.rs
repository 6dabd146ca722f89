use ait_application::catalog::{builtin_providers, AgentConfiguration, AgentRecord};
use ait_application::commands::{
    apply_command, git_baseline_workdir, workspace_write_path, Applied, Command, ControlState, GitRoot,
};
use ait_application::conversation::{GitBaseline, MessageRecord, RunCatalog};
use ait_application::crons::CronRecord;
use ait_application::errors::ErrorCode;
use ait_application::events::PendingEvent;
use ait_application::storage::{
    complete_loaded_catalog, record_changes, record_keys, ControlChange, ControlRecord, RecordKind,
};
use ait_application::invocation::workspace_invocation;
use ait_application::permissions::PermissionPolicyLimits;
use ait_application::runs::WorkingSet;
use ait_application::titles::begin_title_generation;
use ait_application::settings::{SettingKind, SettingDefinition, SettingValue, SettingsDocument};

fn settings() -> SettingsDocument {
    SettingsDocument {
        entries: vec![
            ("permissions.sandbox".into(), SettingValue::Text("workspace_write".into())),
            ("permissions.approval".into(), SettingValue::Text("on_request".into())),
        ],
    }
}

fn schema() -> Vec<SettingDefinition> {
    vec![
        SettingDefinition { id: "permissions.sandbox".into(), kind: SettingKind::Text },
        SettingDefinition { id: "permissions.approval".into(), kind: SettingKind::Text },
    ]
}

fn empty() -> ControlState {
    ControlState {
        work: WorkingSet {
            projects: Vec::new(),
            sessions: Vec::new(),
            runs: Vec::new(),
            journals: Vec::new(),
        },
        messages: Vec::new(),
        run_credentials: Vec::new(),
        catalog: RunCatalog {
            settings: settings(),
            agents: Vec::new(),
            providers: builtin_providers(),
            provider_credentials: Vec::new(),
        },
        settings_revision: 1,
        crons: Vec::new(),
    }
}

fn config() -> AgentConfiguration {
    AgentConfiguration {
        provider_id: "builtin-codex".into(),
        model: "gpt-5.6-sol".into(),
        reasoning_effort: None,
    }
}

fn baseline() -> GitBaseline {
    GitBaseline {
        commit: "c".repeat(40),
        index_tree: "t".repeat(40),
    }
}

fn apply(state: &mut ControlState, command: Command) -> Result<Applied, ErrorCode> {
    apply_with_events(state, command, &mut Vec::new())
}

fn apply_with_events(
    state: &mut ControlState,
    command: Command,
    outbox: &mut Vec<PendingEvent>,
) -> Result<Applied, ErrorCode> {
    let root = GitRoot {
        workdir: "/work/demo".into(),
        head: "a".repeat(40),
    };
    apply_command(
        state,
        command,
        Some(&baseline()),
        Some(root),
        PermissionPolicyLimits::default(),
        false,
        &schema(),
        settings(),
        outbox,
    )
    .map_err(|e| e.code)
}

fn seeded() -> ControlState {
    let mut state = empty();
    apply(
        &mut state,
        Command::RegisterProject {
            id: "demo".into(),
            name: "Demo".into(),
            workdir: "./demo".into(),
            repo_url: None,
        },
    )
    .unwrap();
    apply(
        &mut state,
        Command::RegisterAgent {
            id: "codex".into(),
            name: "Codex".into(),
            config: config(),
        },
    )
    .unwrap();
    apply(
        &mut state,
        Command::CreateSession {
            id: "main".into(),
            project_id: "demo".into(),
            agent_id: "codex".into(),
            at_message_id: None,
        },
    )
    .unwrap();
    state
}

#[test]
fn the_readme_flow_registers_creates_and_sends() {
    let mut state = seeded();
    assert_eq!(state.work.projects[0].workdir, "/work/demo");
    assert_eq!(state.messages.len(), 1);
    let applied = apply(
        &mut state,
        Command::SendMessage {
            session_id: "main".into(),
            text: "hello".into(),
        },
    )
    .unwrap();
    assert_eq!(applied, Applied::Run(0));
    assert_eq!(state.work.runs[0].status, "queued");
    assert_eq!(state.messages.len(), 2);
    let run_id = state.work.runs[0].id.clone();
    let cancelled = apply(&mut state, Command::CancelRun { run_id }).unwrap();
    assert_eq!(cancelled, Applied::Run(0));
    assert_eq!(state.work.runs[0].status, "cancelled");
}

#[test]
fn a_user_message_needs_the_git_snapshot() {
    let mut state = seeded();
    let mut outbox = Vec::new();
    let error = apply_command(
        &mut state,
        Command::SendMessage {
            session_id: "main".into(),
            text: "hello".into(),
        },
        None,
        None,
        PermissionPolicyLimits::default(),
        false,
        &schema(),
        settings(),
        &mut outbox,
    )
    .unwrap_err();
    assert_eq!(error.code, ErrorCode::ProjectGitHeadUnavailable);
    assert!(outbox.is_empty());
    assert!(state.work.runs.is_empty());
}

#[test]
fn settings_saves_are_optimistic_and_resets_restore_defaults() {
    let mut state = seeded();
    let mut values = settings();
    values.entries[1].1 = SettingValue::Text("never".into());
    let stale = apply(
        &mut state,
        Command::SaveSettings {
            expected_revision: 7,
            values,
        },
    )
    .unwrap_err();
    assert_eq!(stale, ErrorCode::InvalidConfiguration);
    let mut values = settings();
    values.entries[1].1 = SettingValue::Text("never".into());
    assert_eq!(
        apply(
            &mut state,
            Command::SaveSettings {
                expected_revision: 1,
                values,
            },
        ),
        Ok(Applied::Settings)
    );
    assert_eq!(state.settings_revision, 2);
    assert!(matches!(&state.catalog.settings.entries[1].1, SettingValue::Text(t) if t == "never"));
    assert_eq!(apply(&mut state, Command::ResetSettings), Ok(Applied::Settings));
    assert_eq!(state.settings_revision, 3);
    assert!(matches!(&state.catalog.settings.entries[1].1, SettingValue::Text(t) if t == "on_request"));
}

#[test]
fn session_commands_are_routed() {
    let mut state = seeded();
    assert_eq!(
        apply(
            &mut state,
            Command::RenameSession {
                session_id: "main".into(),
                name: "  my   session ".into(),
            },
        ),
        Ok(Applied::Session(0))
    );
    assert_eq!(state.work.sessions[0].name, "my session");
    assert_eq!(
        apply(
            &mut state,
            Command::SetSessionTitle {
                session_id: "main".into(),
                title: "Title".into(),
            },
        ),
        Ok(Applied::Session(0))
    );
    assert_eq!(
        apply(
            &mut state,
            Command::SetProjectDefaultAgent {
                project_id: "demo".into(),
                agent_id: "codex".into(),
            },
        ),
        Ok(Applied::Project(0))
    );
    assert_eq!(
        apply(
            &mut state,
            Command::SetCronEnabled {
                cron_id: "nightly".into(),
                enabled: false,
            },
        ),
        Err(ErrorCode::InvalidCron)
    );
}

#[test]
fn a_codex_message_holds_the_project_work_tree() {
    let state = seeded();
    let command = Command::SendMessage {
        session_id: "main".into(),
        text: "hi".into(),
    };
    let path = workspace_write_path(&state, &command, PermissionPolicyLimits::default()).unwrap();
    assert_eq!(path.as_deref(), Some("/work/demo"));
    let other = Command::RenameSession {
        session_id: "main".into(),
        name: "x".into(),
    };
    assert_eq!(workspace_write_path(&state, &other, PermissionPolicyLimits::default()).unwrap(), None);
    let missing = Command::SendMessage {
        session_id: "nope".into(),
        text: "hi".into(),
    };
    let error = workspace_write_path(&state, &missing, PermissionPolicyLimits::default()).unwrap_err();
    assert_eq!(error.code, ErrorCode::SessionNotFound);
}

#[test]
fn a_cron_whose_occurrence_ran_needs_no_work_tree() {
    let mut state = seeded();
    state.crons.push(CronRecord {
        id: "nightly".into(),
        name: "Nightly".into(),
        project_id: "demo".into(),
        base_message_id: state.work.projects[0].root_message_id.clone(),
        agent_id: "codex".into(),
        schedule: "0 0 * * *".into(),
        timezone: "UTC".into(),
        enabled: true,
    });
    let command = Command::TriggerCron {
        cron_id: "nightly".into(),
        scheduled_at: 100,
    };
    let path = workspace_write_path(&state, &command, PermissionPolicyLimits::default()).unwrap();
    assert_eq!(path.as_deref(), Some("/work/demo"));
    let applied = apply(&mut state, command).unwrap();
    assert!(matches!(applied, Applied::CronTriggered(_)));
    let again = Command::TriggerCron {
        cron_id: "nightly".into(),
        scheduled_at: 100,
    };
    assert_eq!(workspace_write_path(&state, &again, PermissionPolicyLimits::default()).unwrap(), None);
}

#[test]
fn a_queued_run_has_what_its_turn_needs() {
    let mut state = seeded();
    apply(
        &mut state,
        Command::SendMessage {
            session_id: "main".into(),
            text: "write the code".into(),
        },
    )
    .unwrap();
    let run = &state.work.runs[0];
    let invocation = workspace_invocation(&state.work.projects, &state.messages, run).unwrap();
    assert_eq!(invocation.request_id, run.id);
    assert_eq!(invocation.model, "gpt-5.6-sol");
    assert_eq!(invocation.commit_subject, "write the code");
    assert_eq!(invocation.cwd, "/work/demo");
    assert_eq!(invocation.baseline_commit, "c".repeat(40));
    assert_eq!(invocation.baseline_index_tree, "t".repeat(40));
    assert_eq!(invocation.project_instructions.as_deref(), Some("AIT project instructions"));
    assert_eq!(invocation.prompt, "Conversation:\nuser: write the code\n");

    let mut orphan = MessageRecord {
        id: "m".into(),
        project_id: "demo".into(),
        parent_message_id: None,
        role: "user".into(),
        kind: "standard".into(),
        text: None,
        git_commit: None,
        data: None,
        created_at: 0,
    };
    orphan.text = None;
    let mut messages = state.messages;
    messages.push(orphan);
    let mut other = state.work.runs.remove(0);
    other.base_message_id = "m".into();
    let error = workspace_invocation(&state.work.projects, &messages, &other).unwrap_err();
    assert_eq!(error.code, ErrorCode::MessageNotFound);
    let _ = AgentRecord {
        id: String::new(),
        name: String::new(),
        config: config(),
        owner_session_id: None,
        revision: 1,
        enabled: true,
    };
}

#[test]
fn user_messages_need_a_snapshot_of_their_project() {
    let mut state = seeded();
    let send = Command::SendMessage {
        session_id: "main".into(),
        text: "hi".into(),
    };
    assert_eq!(git_baseline_workdir(&state, &send).unwrap().as_deref(), Some("/work/demo"));
    let rename = Command::RenameSession {
        session_id: "main".into(),
        name: "x".into(),
    };
    assert_eq!(git_baseline_workdir(&state, &rename).unwrap(), None);
    let fork = Command::ForkSession {
        id: "f".into(),
        project_id: "gone".into(),
        agent_id: "codex".into(),
        at_message_id: "m".into(),
        text: "t".into(),
    };
    assert_eq!(git_baseline_workdir(&state, &fork).unwrap_err().code, ErrorCode::InvalidProject);
    state.crons.push(CronRecord {
        id: "nightly".into(),
        name: "Nightly".into(),
        project_id: "demo".into(),
        base_message_id: state.work.projects[0].root_message_id.clone(),
        agent_id: "codex".into(),
        schedule: "0 0 * * *".into(),
        timezone: "UTC".into(),
        enabled: false,
    });
    let trigger = Command::TriggerCron {
        cron_id: "nightly".into(),
        scheduled_at: 5,
    };
    assert_eq!(git_baseline_workdir(&state, &trigger).unwrap(), None);
}

#[test]
fn title_generation_starts_after_the_first_answer() {
    let mut state = seeded();
    apply(
        &mut state,
        Command::SendMessage {
            session_id: "main".into(),
            text: "write a parser".into(),
        },
    )
    .unwrap();
    let user = state.messages[1].id.clone();
    state.messages.push(MessageRecord {
        id: "reply".into(),
        project_id: "demo".into(),
        parent_message_id: Some(user),
        role: "assistant".into(),
        kind: "standard".into(),
        text: Some("done".into()),
        git_commit: None,
        data: None,
        created_at: 3,
    });
    state.work.sessions[0].current_message_id = "reply".into();
    let start = begin_title_generation(&mut state.work, &state.messages, "main", &mut Vec::new()).unwrap();
    assert!(start.generate);
    assert_eq!(start.workdir, "/work/demo");
    assert!(state.work.sessions[0].title_generation_started);
    let again = begin_title_generation(&mut state.work, &state.messages, "main", &mut Vec::new()).unwrap();
    assert!(!again.generate);
}

fn kinds(outbox: &[PendingEvent]) -> Vec<(String, Option<String>)> {
    outbox.iter().map(|e| (e.kind.clone(), e.entity_id.clone())).collect()
}

#[test]
fn commands_queue_their_events_and_refusals_queue_none() {
    let mut state = seeded();
    let mut outbox = Vec::new();
    apply_with_events(
        &mut state,
        Command::SetSessionTitle { session_id: "main".into(), title: "  Hello   world ".into() },
        &mut outbox,
    )
    .unwrap();
    assert_eq!(kinds(&outbox), vec![("session.title_updated".to_string(), Some("main".to_string()))]);
    assert_eq!(state.work.sessions[0].title.as_deref(), Some("Hello world"));

    let mut outbox = Vec::new();
    let refused = apply_with_events(
        &mut state,
        Command::RenameSession { session_id: "missing".into(), name: "x".into() },
        &mut outbox,
    );
    assert_eq!(refused, Err(ErrorCode::SessionNotFound));
    assert!(outbox.is_empty());

    let mut outbox = Vec::new();
    apply_with_events(
        &mut state,
        Command::SendMessage { session_id: "main".into(), text: "hello".into() },
        &mut outbox,
    )
    .unwrap();
    let run_id = state.work.runs[0].id.clone();
    assert_eq!(kinds(&outbox), vec![("run.updated".to_string(), Some(run_id.clone()))]);

    let mut outbox = Vec::new();
    apply_with_events(&mut state, Command::CancelRun { run_id: run_id.clone() }, &mut outbox).unwrap();
    assert_eq!(kinds(&outbox), vec![("run.updated".to_string(), Some(run_id.clone()))]);
    let mut outbox = Vec::new();
    assert!(apply_with_events(&mut state, Command::CancelRun { run_id }, &mut outbox).is_err());
    assert!(outbox.is_empty());

    let mut outbox = Vec::new();
    let head = state.work.sessions[0].current_message_id.clone();
    apply_with_events(
        &mut state,
        Command::ForkSession {
            id: "branch".into(),
            project_id: "demo".into(),
            agent_id: "codex".into(),
            at_message_id: head,
            text: "again".into(),
        },
        &mut outbox,
    )
    .unwrap();
    let fork_run = state.work.runs.last().unwrap().id.clone();
    assert_eq!(
        kinds(&outbox),
        vec![
            ("session.created".to_string(), Some("branch".to_string())),
            ("run.updated".to_string(), Some(fork_run)),
        ]
    );

    let mut outbox = Vec::new();
    apply_with_events(&mut state, Command::ResetSettings, &mut outbox).unwrap();
    assert_eq!(kinds(&outbox), vec![("settings.reset".to_string(), None)]);
}

#[test]
fn records_are_routed_to_their_project_store() {
    let mut state = seeded();
    apply(&mut state, Command::SendMessage { session_id: "main".into(), text: "hello".into() }).unwrap();
    let run_id = state.work.runs[0].id.clone();
    state.run_credentials.push((run_id.clone(), "secret-ref".into()));
    let keys = record_keys(&state);
    let find = |kind: RecordKind, id: &str| {
        keys.iter().find(|k| k.0 == kind && k.1 == id).map(|k| k.2.clone())
    };
    assert_eq!(find(RecordKind::Project, "demo"), Some(Some("demo".to_string())));
    assert_eq!(find(RecordKind::Agent, "codex"), Some(None));
    assert_eq!(find(RecordKind::Session, "main"), Some(Some("demo".to_string())));
    assert_eq!(find(RecordKind::Run, &run_id), Some(Some("demo".to_string())));
    assert_eq!(find(RecordKind::RunCredential, &run_id), Some(Some("demo".to_string())));
    assert_eq!(find(RecordKind::WorkspaceRunJournal, &run_id), None);
    assert_eq!(find(RecordKind::Provider, "builtin-codex"), Some(None));
    assert_eq!(keys.last().unwrap(), &(RecordKind::Settings, "settings".to_string(), None));
    let messages = keys.iter().filter(|k| k.0 == RecordKind::Message).count();
    assert_eq!(messages, state.messages.len());
}

fn record(kind: RecordKind, id: &str, project: Option<&str>, value: &str) -> ControlRecord {
    ControlRecord {
        kind,
        id: id.into(),
        project_id: project.map(str::to_string),
        value: value.into(),
    }
}

#[test]
fn record_changes_put_what_changed_and_delete_what_is_gone() {
    let old = vec![
        record(RecordKind::Session, "a", Some("p"), "{\"v\":1}"),
        record(RecordKind::Session, "b", Some("p"), "{\"v\":1}"),
        record(RecordKind::Settings, "settings", None, "{}"),
    ];
    let new = vec![
        record(RecordKind::Session, "a", Some("p"), "{\"v\":2}"),
        record(RecordKind::Settings, "settings", None, "{}"),
        record(RecordKind::Run, "r", Some("p"), "{}"),
    ];
    let changes = record_changes(&old, &new);
    assert_eq!(changes.len(), 3);
    match &changes[0] {
        ControlChange::Put(r) => assert_eq!((r.id.as_str(), r.value.as_str()), ("a", "{\"v\":2}")),
        other => panic!("unexpected {other:?}"),
    }
    match &changes[1] {
        ControlChange::Put(r) => assert_eq!((r.kind, r.id.as_str()), (RecordKind::Run, "r")),
        other => panic!("unexpected {other:?}"),
    }
    match &changes[2] {
        ControlChange::Delete { kind, id } => assert_eq!((*kind, id.as_str()), (RecordKind::Session, "b")),
        other => panic!("unexpected {other:?}"),
    }
    assert!(record_changes(&new, &new).is_empty());
}

#[test]
fn loaded_catalogs_gain_the_builtin_provider_and_lose_model_settings() {
    let mut catalog = RunCatalog {
        settings: SettingsDocument {
            entries: vec![
                ("models.gpt".into(), SettingValue::Text("x".into())),
                ("permissions.sandbox".into(), SettingValue::Text("read_only".into())),
                ("model".into(), SettingValue::Text("y".into())),
            ],
        },
        agents: Vec::new(),
        providers: Vec::new(),
        provider_credentials: Vec::new(),
    };
    complete_loaded_catalog(&mut catalog);
    assert_eq!(catalog.providers.len(), 1);
    assert_eq!(catalog.providers[0].provider.id, "builtin-codex");
    let keys: Vec<&str> = catalog.settings.entries.iter().map(|(k, _)| k.as_str()).collect();
    assert_eq!(keys, vec!["permissions.sandbox", "model"]);
    complete_loaded_catalog(&mut catalog);
    assert_eq!(catalog.providers.len(), 1);
}
