use ait_application::catalog::{builtin_providers, AgentConfiguration, AgentRecord};
use ait_application::conversation::{codex_prompt, new_message, send_message, GitBaseline, MessageRecord, RunCatalog};
use ait_application::errors::ErrorCode;
use ait_application::permissions::{PermissionPolicyLimits, SandboxAccess};
use ait_application::runs::{ProjectRecord, SessionRecord, WorkingSet};
use ait_application::settings::{SettingValue, SettingsDocument};

fn catalog() -> RunCatalog {
    RunCatalog {
        settings: SettingsDocument {
            entries: vec![
                ("permissions.sandbox".into(), SettingValue::Text("workspace_write".into())),
                ("permissions.approval".into(), SettingValue::Text("on_request".into())),
            ],
        },
        agents: vec![AgentRecord {
            id: "agent".into(),
            name: "Default".into(),
            config: AgentConfiguration {
                provider_id: "builtin-codex".into(),
                model: "gpt-5.6-sol".into(),
                reasoning_effort: Some("high".into()),
            },
            owner_session_id: None,
            revision: 3,
            enabled: true,
        }],
        providers: builtin_providers(),
        provider_credentials: vec![("builtin-codex".into(), "secret-ref".into())],
    }
}

fn state() -> WorkingSet {
    WorkingSet {
        projects: vec![ProjectRecord {
            id: "p".into(),
            name: "Project".into(),
            workdir: "/work/p".into(),
            root_message_id: "root".into(),
            repo_url: None,
            base_commit: "a".repeat(40),
            default_agent_id: None,
            revision: 1,
        }],
        sessions: vec![SessionRecord {
            id: "s".into(),
            project_id: "p".into(),
            agent_id: "agent".into(),
            name: String::new(),
            title: None,
            description: String::new(),
            title_generation_started: false,
            archived: false,
            current_message_id: "root".into(),
            active_run_id: None,
            version: 1,
        }],
        runs: Vec::new(),
        journals: Vec::new(),
    }
}

fn baseline() -> GitBaseline {
    GitBaseline {
        commit: "c".repeat(40),
        index_tree: "t".repeat(40),
    }
}

#[test]
fn a_message_queues_a_run_on_an_idle_session() {
    let mut state = state();
    let mut messages: Vec<MessageRecord> = Vec::new();
    let mut credentials = Vec::new();
    let index = send_message(
        &mut state,
        &mut messages,
        &mut credentials,
        &catalog(),
        "s".into(),
        "hello".into(),
        &baseline(),
        PermissionPolicyLimits::default(),
    )
    .unwrap();
    let run = &state.runs[index];
    assert_eq!(messages.len(), 1);
    assert_eq!(messages[0].role, "user");
    assert_eq!(messages[0].parent_message_id.as_deref(), Some("root"));
    assert_eq!(messages[0].text.as_deref(), Some("hello"));
    assert_eq!(run.status, "queued");
    assert_eq!(run.base_message_id, messages[0].id);
    assert_eq!(run.operation_id.as_deref(), Some(format!("workspace-{}", run.id).as_str()));
    assert_eq!(run.permission_profile.sandbox, SandboxAccess::WorkspaceWrite);
    assert_eq!(run.agent_revision, 3);
    assert_eq!(run.workspace_base_commit.as_deref(), Some("c".repeat(40).as_str()));
    assert_eq!(state.sessions[0].active_run_id.as_deref(), Some(run.id.as_str()));
    assert_eq!(state.sessions[0].current_message_id, messages[0].id);
    assert_eq!(state.sessions[0].version, 2);
    assert_eq!(credentials, vec![(run.id.clone(), "secret-ref".to_string())]);

    let busy = send_message(
        &mut state,
        &mut messages,
        &mut credentials,
        &catalog(),
        "s".into(),
        "again".into(),
        &baseline(),
        PermissionPolicyLimits::default(),
    )
    .unwrap_err();
    assert_eq!(busy.code, ErrorCode::SessionBusy);
    assert_eq!(messages.len(), 1);
}

#[test]
fn messages_are_refused_before_anything_is_written() {
    let mut state = state();
    let mut messages: Vec<MessageRecord> = Vec::new();
    let mut credentials = Vec::new();
    let blank = send_message(&mut state, &mut messages, &mut credentials, &catalog(), "s".into(), " ".into(), &baseline(), PermissionPolicyLimits::default())
        .unwrap_err();
    assert_eq!(blank.code, ErrorCode::InvalidMessageRole);
    let missing = send_message(&mut state, &mut messages, &mut credentials, &catalog(), "x".into(), "hi".into(), &baseline(), PermissionPolicyLimits::default())
        .unwrap_err();
    assert_eq!(missing.code, ErrorCode::SessionNotFound);
    let capped = PermissionPolicyLimits {
        max_sandbox: SandboxAccess::ReadOnly,
        allow_session_approvals: true,
    };
    let over = send_message(&mut state, &mut messages, &mut credentials, &catalog(), "s".into(), "hi".into(), &baseline(), capped)
        .unwrap_err();
    assert_eq!(over.code, ErrorCode::InvalidConfiguration);
    let mut disabled = catalog();
    disabled.agents[0].enabled = false;
    let no_agent = send_message(&mut state, &mut messages, &mut credentials, &disabled, "s".into(), "hi".into(), &baseline(), PermissionPolicyLimits::default())
        .unwrap_err();
    assert_eq!(no_agent.code, ErrorCode::AgentNotFound);
    assert!(messages.is_empty());
    assert!(state.runs.is_empty());
    assert!(credentials.is_empty());
}

fn message(id: &str, parent: Option<&str>, role: &str, text: Option<&str>) -> MessageRecord {
    MessageRecord {
        id: id.into(),
        project_id: "p".into(),
        parent_message_id: parent.map(str::to_owned),
        role: role.into(),
        kind: "standard".into(),
        text: text.map(str::to_owned),
        git_commit: None,
        data: None,
        created_at: 0,
    }
}

#[test]
fn prompts_follow_the_message_path_from_the_root() {
    let messages = vec![
        message("u2", Some("a1"), "user", Some("second")),
        message("root", None, "system", Some("Be brief.")),
        message("rules", Some("root"), "system", Some("Use Rust.")),
        message("u1", Some("rules"), "user", Some("first")),
        message("a1", Some("u1"), "assistant", Some("answer")),
        message("empty", Some("u2"), "assistant", None),
    ];
    let (instructions, prompt) = codex_prompt(&messages, "empty").unwrap();
    assert_eq!(instructions.as_deref(), Some("Be brief.\n\nUse Rust."));
    assert_eq!(
        prompt,
        "Conversation:\nuser: first\nassistant: answer\nuser: second\n"
    );
    let (none, only) = codex_prompt(&vec![message("x", None, "user", Some("hi"))], "x").unwrap();
    assert!(none.is_none());
    assert_eq!(only, "Conversation:\nuser: hi\n");
    let broken = codex_prompt(&vec![message("x", Some("gone"), "user", Some("hi"))], "x").unwrap_err();
    assert_eq!(broken.code, ErrorCode::MessageNotFound);
    assert_eq!(broken.message, "message path is incomplete");
}

#[test]
fn new_message_gets_a_hyphenated_random_uuid() {
    let message = new_message("project", Some("parent"), "user", "message", Some("hi".into()), None, None);
    let id: Vec<char> = message.id.chars().collect();
    assert_eq!(id.len(), 36);
    for (i, c) in id.iter().enumerate() {
        if i == 8 || i == 13 || i == 18 || i == 23 {
            assert_eq!(*c, '-');
        } else {
            assert!(c.is_ascii_hexdigit() && !c.is_ascii_uppercase());
        }
    }
    assert_eq!(id[14], '4');
    assert_eq!(message.project_id, "project");
    assert_eq!(message.parent_message_id.as_deref(), Some("parent"));
    assert!(message.created_at > 0);
    let other = new_message("project", None, "user", "message", None, None, None);
    assert_ne!(other.id, message.id);
}
