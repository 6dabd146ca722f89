use ait_application::branching::{create_session, derive_session, fork_session, ForkSessionInput};
use ait_application::catalog::{builtin_providers, AgentConfiguration, AgentRecord};
use ait_application::conversation::{
    is_first_completed_interaction, GitBaseline, MessageRecord, RunCatalog,
};
use ait_application::errors::ErrorCode;
use ait_application::permissions::PermissionPolicyLimits;
use ait_application::runs::{ProjectRecord, SessionRecord, WorkingSet};
use ait_application::settings::{SettingValue, SettingsDocument};

fn agent(id: &str, owner: Option<&str>) -> AgentRecord {
    AgentRecord {
        id: id.into(),
        name: "Default".into(),
        config: AgentConfiguration {
            provider_id: "builtin-codex".into(),
            model: "gpt-5.6-sol".into(),
            reasoning_effort: Some("high".into()),
        },
        owner_session_id: owner.map(|o| o.to_string()),
        revision: 4,
        enabled: true,
    }
}

fn catalog() -> RunCatalog {
    RunCatalog {
        settings: SettingsDocument {
            entries: vec![
                ("permissions.sandbox".into(), SettingValue::Text("workspace_write".into())),
                ("permissions.approval".into(), SettingValue::Text("on_request".into())),
            ],
        },
        agents: vec![agent("agent", None), agent("own", Some("s"))],
        providers: builtin_providers(),
        provider_credentials: Vec::new(),
    }
}

fn project(id: &str) -> ProjectRecord {
    ProjectRecord {
        id: id.into(),
        name: "Project".into(),
        workdir: format!("/work/{id}"),
        root_message_id: format!("root-{id}"),
        repo_url: None,
        base_commit: "a".repeat(40),
        default_agent_id: None,
        revision: 1,
    }
}

fn message(id: &str, project: &str, parent: Option<&str>, role: &str) -> MessageRecord {
    MessageRecord {
        id: id.into(),
        project_id: project.into(),
        parent_message_id: parent.map(|p| p.to_string()),
        role: role.into(),
        kind: "standard".into(),
        text: Some(format!("text of {id}")),
        git_commit: None,
        data: None,
        created_at: 1,
    }
}

fn session(id: &str, head: &str, agent: &str) -> SessionRecord {
    SessionRecord {
        id: id.into(),
        project_id: "p".into(),
        agent_id: agent.into(),
        name: String::new(),
        title: None,
        description: String::new(),
        title_generation_started: false,
        archived: false,
        current_message_id: head.into(),
        active_run_id: None,
        version: 1,
    }
}

fn state() -> WorkingSet {
    WorkingSet {
        projects: vec![project("p"), project("q")],
        sessions: vec![session("s", "m1", "own")],
        runs: Vec::new(),
        journals: Vec::new(),
    }
}

fn messages() -> Vec<MessageRecord> {
    vec![
        message("root-p", "p", None, "system"),
        message("m1", "p", Some("root-p"), "user"),
        message("root-q", "q", None, "system"),
    ]
}

fn baseline() -> GitBaseline {
    GitBaseline {
        commit: "c".repeat(40),
        index_tree: "t".repeat(40),
    }
}

fn input(id: &str, agent: &str, at: &str, text: &str) -> ForkSessionInput {
    ForkSessionInput {
        id: id.into(),
        project_id: "p".into(),
        agent_id: agent.into(),
        at_message_id: at.into(),
        text: text.into(),
    }
}

#[test]
fn a_session_starts_at_the_project_root_with_a_named_agent() {
    let mut state = state();
    let mut agents = catalog().agents;
    let k = create_session(
        &mut state.sessions,
        &state.projects,
        &mut agents,
        &messages(),
        "n".into(),
        "p".into(),
        "agent",
        None,
    )
    .unwrap();
    assert_eq!(k, 1);
    let created = &state.sessions[1];
    assert_eq!(created.id, "n");
    assert_eq!(created.current_message_id, "root-p");
    assert_eq!(created.agent_id, "agent");
    assert_eq!(created.version, 1);
    assert!(created.active_run_id.is_none());
    assert_eq!(agents.len(), 2);
}

#[test]
fn another_sessions_agent_is_copied_for_the_new_session() {
    let mut state = state();
    let mut agents = catalog().agents;
    create_session(
        &mut state.sessions,
        &state.projects,
        &mut agents,
        &messages(),
        "n".into(),
        "p".into(),
        "own",
        Some("m1".into()),
    )
    .unwrap();
    assert_eq!(agents.len(), 3);
    let copy = &agents[2];
    assert_ne!(copy.id, "own");
    assert_eq!(copy.owner_session_id.as_deref(), Some("n"));
    assert_eq!(copy.revision, 1);
    assert_eq!(copy.config.reasoning_effort.as_deref(), Some("high"));
    assert_eq!(state.sessions[1].agent_id, copy.id);
    assert_eq!(state.sessions[1].current_message_id, "m1");
}

#[test]
fn session_creation_refusals_come_in_order() {
    let cases: Vec<(&str, &str, &str, Option<&str>, ErrorCode)> = vec![
        ("  ", "p", "agent", None, ErrorCode::InvalidSession),
        ("s", "p", "agent", None, ErrorCode::InvalidSession),
        ("n", "missing", "agent", None, ErrorCode::InvalidProject),
        ("n", "p", "missing", None, ErrorCode::AgentNotFound),
        ("n", "p", "agent", Some("nowhere"), ErrorCode::MessageNotFound),
        ("n", "p", "agent", Some("root-q"), ErrorCode::SessionMessageProjectMismatch),
    ];
    for (id, project_id, agent_id, at, code) in cases {
        let mut state = state();
        let mut agents = catalog().agents;
        let error = create_session(
            &mut state.sessions,
            &state.projects,
            &mut agents,
            &messages(),
            id.into(),
            project_id.into(),
            agent_id,
            at.map(|a| a.to_string()),
        )
        .unwrap_err();
        assert_eq!(error.code, code);
        assert_eq!(state.sessions.len(), 1);
        assert_eq!(agents.len(), 2);
    }
}

#[test]
fn forking_creates_a_session_and_queues_its_first_run() {
    let mut state = state();
    let mut messages = messages();
    let mut credentials = Vec::new();
    let mut catalog = catalog();
    let r = fork_session(
        &mut state,
        &mut messages,
        &mut credentials,
        &mut catalog,
        input("n", "agent", "m1", "branch here"),
        &baseline(),
        PermissionPolicyLimits::default(),
    )
    .unwrap();
    let run = &state.runs[r];
    assert_eq!(state.sessions.len(), 2);
    assert_eq!(run.session_id.as_deref(), Some("n"));
    assert_eq!(messages.len(), 4);
    assert_eq!(messages[3].parent_message_id.as_deref(), Some("m1"));
    assert_eq!(messages[3].text.as_deref(), Some("branch here"));
    assert_eq!(state.sessions[1].current_message_id, messages[3].id);
    assert_eq!(state.sessions[1].active_run_id.as_deref(), Some(run.id.as_str()));
    assert_eq!(state.sessions[1].version, 2);
}

#[test]
fn forking_with_a_used_id_changes_nothing() {
    let mut state = state();
    let mut messages = messages();
    let mut credentials = Vec::new();
    let mut catalog = catalog();
    let error = fork_session(
        &mut state,
        &mut messages,
        &mut credentials,
        &mut catalog,
        input("s", "agent", "m1", "hello"),
        &baseline(),
        PermissionPolicyLimits::default(),
    )
    .unwrap_err();
    assert_eq!(error.code, ErrorCode::InvalidSession);
    assert_eq!(state.sessions.len(), 1);
    assert_eq!(messages.len(), 3);
}

#[test]
fn a_locked_idle_source_at_its_leaf_is_reused() {
    let mut state = state();
    let mut messages = messages();
    let mut credentials = Vec::new();
    let mut catalog = catalog();
    let r = derive_session(
        &mut state,
        &mut messages,
        &mut credentials,
        &mut catalog,
        input("n", "own", "m1", "continue"),
        "s",
        true,
        &baseline(),
        PermissionPolicyLimits::default(),
    )
    .unwrap();
    assert_eq!(state.sessions.len(), 1);
    assert_eq!(state.runs[r].session_id.as_deref(), Some("s"));
    assert_eq!(state.sessions[0].current_message_id, messages[3].id);
}

#[test]
fn an_unlocked_source_is_forked_instead() {
    let mut state = state();
    let mut messages = messages();
    let mut credentials = Vec::new();
    let mut catalog = catalog();
    let r = derive_session(
        &mut state,
        &mut messages,
        &mut credentials,
        &mut catalog,
        input("n", "own", "m1", "continue"),
        "s",
        false,
        &baseline(),
        PermissionPolicyLimits::default(),
    )
    .unwrap();
    assert_eq!(state.sessions.len(), 2);
    assert_eq!(state.runs[r].session_id.as_deref(), Some("n"));
    assert_eq!(state.sessions[0].current_message_id, "m1");
    assert_eq!(catalog.agents.len(), 3);
}

#[test]
fn derive_refusals_come_in_order() {
    let cases: Vec<(ForkSessionInput, &str, ErrorCode)> = vec![
        (input("n", "agent", "m1", " "), "s", ErrorCode::InvalidMessageRole),
        (input("s", "agent", "m1", "x"), "s", ErrorCode::InvalidSession),
        (input("n", "missing", "m1", "x"), "s", ErrorCode::AgentNotFound),
        (input("n", "agent", "gone", "x"), "s", ErrorCode::MessageNotFound),
        (input("n", "agent", "root-q", "x"), "s", ErrorCode::SessionMessageProjectMismatch),
        (input("n", "agent", "m1", "x"), "missing", ErrorCode::SessionNotFound),
    ];
    for (given, source, code) in cases {
        let mut state = state();
        let mut messages = messages();
        let mut credentials = Vec::new();
        let mut catalog = catalog();
        let error = derive_session(
            &mut state,
            &mut messages,
            &mut credentials,
            &mut catalog,
            given,
            source,
            true,
            &baseline(),
            PermissionPolicyLimits::default(),
        )
        .unwrap_err();
        assert_eq!(error.code, code);
        assert_eq!(state.sessions.len(), 1);
        assert_eq!(messages.len(), 3);
    }
}

#[test]
fn the_first_completed_interaction_is_recognised() {
    let mut state = state();
    let mut messages = messages();
    let mut credentials = Vec::new();
    let mut catalog = catalog();
    let r = fork_session(
        &mut state,
        &mut messages,
        &mut credentials,
        &mut catalog,
        input("n", "agent", "m1", "first"),
        &baseline(),
        PermissionPolicyLimits::default(),
    )
    .unwrap();
    assert!(!is_first_completed_interaction(&messages, &state.runs, &state.sessions[1]));
    let user = messages[3].id.clone();
    messages.push(message("reply", "p", Some(&user), "assistant"));
    state.sessions[1].current_message_id = "reply".into();
    assert!(is_first_completed_interaction(&messages, &state.runs, &state.sessions[1]));
    let again = state.runs[r].session_id.clone();
    assert_eq!(again.as_deref(), Some("n"));
}

#[test]
fn a_refused_first_message_undoes_the_fork() {
    let mut state = state();
    state.sessions.push(session("other", "m1", "own"));
    let mut messages = messages();
    let mut credentials = Vec::new();
    let mut catalog = catalog();
    let error = fork_session(
        &mut state,
        &mut messages,
        &mut credentials,
        &mut catalog,
        input("n", "own", "m1", "   "),
        &baseline(),
        PermissionPolicyLimits::default(),
    )
    .unwrap_err();
    assert_eq!(error.code, ErrorCode::InvalidMessageRole);
    assert_eq!(state.sessions.len(), 2);
    assert_eq!(catalog.agents.len(), 2);
    assert_eq!(messages.len(), 3);
    assert!(state.runs.is_empty());
}
