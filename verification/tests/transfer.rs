use ait_application::archive::{validate_project_export, ProjectExport, PROJECT_EXPORT_VERSION};
use ait_application::catalog::{
    builtin_providers, copy_provider, AgentConfiguration, AgentProviderView, AgentRecord,
};
use ait_application::conversation::MessageRecord;
use ait_application::errors::ErrorCode;
use ait_application::runs::{ProjectRecord, SessionRecord, WorkingSet};
use ait_application::transfer::{check_project_import, copy_agent, export_project, import_project};

const ROOT: &str = "00000000-0000-4000-8000-000000000001";
const USER: &str = "00000000-0000-4000-8000-000000000002";
const REPLY: &str = "00000000-0000-4000-8000-000000000003";

fn message(id: &str, parent: Option<&str>, role: &str, commit: Option<&str>) -> MessageRecord {
    MessageRecord {
        id: id.into(),
        project_id: "p".into(),
        parent_message_id: parent.map(|p| p.to_string()),
        role: role.into(),
        kind: "standard".into(),
        text: Some(format!("{role} text")),
        git_commit: commit.map(|c| c.to_string()),
        data: None,
        created_at: 7,
    }
}

fn agent(id: &str, name: &str, owner: Option<&str>) -> AgentRecord {
    AgentRecord {
        id: id.into(),
        name: name.into(),
        config: AgentConfiguration {
            provider_id: "builtin-codex".into(),
            model: "gpt-5.6-sol".into(),
            reasoning_effort: Some("high".into()),
        },
        owner_session_id: owner.map(|o| o.to_string()),
        revision: 2,
        enabled: true,
    }
}

fn source() -> (WorkingSet, Vec<MessageRecord>, Vec<AgentRecord>, Vec<AgentProviderView>) {
    let commit = "c".repeat(40);
    let state = WorkingSet {
        projects: vec![ProjectRecord {
            id: "p".into(),
            name: "Project".into(),
            workdir: "/work/p".into(),
            root_message_id: ROOT.into(),
            repo_url: None,
            base_commit: "a".repeat(40),
            default_agent_id: Some("preset".into()),
            revision: 3,
        }],
        sessions: vec![SessionRecord {
            id: "s".into(),
            project_id: "p".into(),
            agent_id: "own".into(),
            name: "main".into(),
            title: None,
            description: String::new(),
            title_generation_started: false,
            archived: false,
            current_message_id: REPLY.into(),
            active_run_id: Some("run".into()),
            version: 4,
        }],
        runs: Vec::new(),
        journals: Vec::new(),
    };
    let messages = vec![
        message(ROOT, None, "system", None),
        message(USER, Some(ROOT), "user", Some(&commit)),
        message(REPLY, Some(USER), "assistant", None),
    ];
    let agents = vec![agent("preset", "Preset", None), agent("own", "", Some("s")), agent("unused", "U", None)];
    (state, messages, agents, builtin_providers())
}

fn archive() -> ProjectExport {
    let (state, messages, agents, providers) = source();
    export_project(&state, &messages, &agents, &providers, 9, "p").unwrap()
}

#[test]
fn an_export_holds_the_project_and_what_it_uses() {
    let archive = archive();
    assert_eq!(archive.format_version, PROJECT_EXPORT_VERSION);
    assert_eq!(archive.source_revision, 9);
    assert_eq!(archive.messages.len(), 3);
    assert_eq!(archive.sessions.len(), 1);
    assert!(archive.sessions[0].active_run_id.is_none());
    let ids: Vec<&str> = archive.agents.iter().map(|a| a.id.as_str()).collect();
    assert_eq!(ids, vec!["preset", "own"]);
    assert_eq!(archive.providers.len(), 1);
    assert_eq!(archive.providers[0].id, "builtin-codex");
}

#[test]
fn an_unknown_project_is_not_exported() {
    let (state, messages, agents, providers) = source();
    let error = export_project(&state, &messages, &agents, &providers, 9, "x").unwrap_err();
    assert_eq!(error.code, ErrorCode::InvalidProject);
    assert_eq!(error.message, "project not found");
}

#[test]
fn an_export_imports_into_another_workspace() {
    let archive = archive();
    let mut state = WorkingSet {
        projects: Vec::new(),
        sessions: Vec::new(),
        runs: Vec::new(),
        journals: Vec::new(),
    };
    let mut messages = Vec::new();
    let mut agents = vec![agent("preset", "Preset", None)];
    let mut providers = Vec::new();
    let k = import_project(
        &mut state,
        &mut messages,
        &mut agents,
        &mut providers,
        archive,
        "/elsewhere".into(),
        "b".repeat(40),
    )
    .unwrap();
    let project = &state.projects[k];
    assert_eq!(project.workdir, "/elsewhere");
    assert_eq!(project.base_commit, "b".repeat(40));
    assert_eq!(project.revision, 3);
    assert_eq!(messages.len(), 3);
    assert_eq!(state.sessions.len(), 1);
    assert_eq!(agents.len(), 2);
    assert_eq!(agents[1].id, "own");
    assert_eq!(providers.len(), 1);
    assert!(!providers[0].has_secret);
}

fn refusal(change: impl Fn(&mut ProjectExport)) -> String {
    let mut archive = archive();
    change(&mut archive);
    let error = validate_project_export(&archive).unwrap_err();
    assert_eq!(error.code, ErrorCode::InvalidProject);
    error.message
}

#[test]
fn archive_refusals_name_what_is_wrong() {
    assert!(validate_project_export(&archive()).is_ok());
    assert_eq!(refusal(|a| a.format_version = 99), "archive header or project revision is invalid");
    assert_eq!(refusal(|a| a.project.base_commit = "xyz".into()), "archive header or project revision is invalid");
    assert_eq!(
        refusal(|a| a.messages[1].id = "not-a-uuid".into()),
        "archive message identity or project ownership is invalid"
    );
    assert_eq!(
        refusal(|a| a.messages[1].git_commit = None),
        "archive message identity or project ownership is invalid"
    );
    assert_eq!(refusal(|a| a.project.root_message_id = "00000000-0000-4000-8000-000000000009".into()), "archive root message is missing");
    assert_eq!(refusal(|a| a.messages[0].role = "assistant".into()), "archive root message is invalid");
    assert_eq!(
        refusal(|a| a.messages[1].parent_message_id = Some(REPLY.into())),
        "archive message graph contains a cycle"
    );
    assert_eq!(
        refusal(|a| a.messages[1].parent_message_id = None),
        "archive message graph contains an unexpected root"
    );
    assert_eq!(
        refusal(|a| a.messages[1].parent_message_id = Some("00000000-0000-4000-8000-00000000000f".into())),
        "archive message parent is missing"
    );
    assert_eq!(
        refusal(|a| {
            let copy = copy_provider(&a.providers[0]);
            a.providers.push(copy);
        }),
        "duplicate provider"
    );
    assert_eq!(
        refusal(|a| a.project.default_agent_id = Some("own".into())),
        "Project default Agent must be a named preset"
    );
    assert_eq!(refusal(|a| a.agents[0].revision = 0), "archive agent revision is invalid");
    assert_eq!(
        refusal(|a| a.project.default_agent_id = Some("ghost".into())),
        "archive Project default Agent binding is invalid"
    );
    assert_eq!(
        refusal(|a| a.sessions[0].version = 0),
        "archive session pointer, agent binding, or revision is invalid"
    );
    assert_eq!(refusal(|a| a.agents[0].name = " ".into()), "named Agent requires a name");
    assert_eq!(refusal(|a| a.agents[1].name = "x".into()), "invalid anonymous Agent owner");
}

#[test]
fn uuid_forms_that_parse_are_accepted() {
    for id in [
        "00000000000040008000000000000002",
        "{00000000-0000-4000-8000-000000000002}",
        "URN:uuid:00000000-0000-4000-8000-000000000002",
    ] {
        let mut archive = archive();
        archive.messages[1].id = id.into();
        archive.messages[2].parent_message_id = Some(id.into());
        assert!(validate_project_export(&archive).is_ok(), "{id}");
    }
}

#[test]
fn import_refusals() {
    let (state, messages, agents, providers) = source();
    let archive = archive();
    let taken = check_project_import(&state.projects, &Vec::new(), &Vec::new(), &agents, &providers, &archive)
        .unwrap_err();
    assert_eq!(taken.message, "project id already exists");
    let clash = check_project_import(&Vec::new(), &messages, &Vec::new(), &agents, &providers, &archive).unwrap_err();
    assert_eq!(clash.message, "archive identity conflicts with existing workspace state");
    let mut changed: Vec<AgentRecord> = agents.iter().map(copy_agent).collect();
    changed[0].revision = 5;
    let agent_clash = check_project_import(&Vec::new(), &Vec::new(), &Vec::new(), &changed, &providers, &archive)
        .unwrap_err();
    assert_eq!(agent_clash.code, ErrorCode::InvalidAgentConfiguration);
    let mut other_providers = builtin_providers();
    other_providers[0].provider.name = "Renamed".into();
    let provider_clash =
        check_project_import(&Vec::new(), &Vec::new(), &Vec::new(), &Vec::new(), &other_providers, &archive)
            .unwrap_err();
    assert_eq!(provider_clash.message, "archive provider conflicts with an existing connection");

    let mut target = WorkingSet {
        projects: vec![ProjectRecord {
            id: "q".into(),
            name: "Q".into(),
            workdir: "/busy".into(),
            root_message_id: "r".into(),
            repo_url: None,
            base_commit: "a".repeat(40),
            default_agent_id: None,
            revision: 1,
        }],
        sessions: Vec::new(),
        runs: Vec::new(),
        journals: Vec::new(),
    };
    let mut no_messages = Vec::new();
    let mut no_agents = Vec::new();
    let mut no_providers = Vec::new();
    let path = import_project(
        &mut target,
        &mut no_messages,
        &mut no_agents,
        &mut no_providers,
        archive,
        "/busy".into(),
        "b".repeat(40),
    )
    .unwrap_err();
    assert_eq!(path.code, ErrorCode::ProjectPathAlreadyRegistered);
    assert_eq!(target.projects.len(), 1);
    assert!(no_messages.is_empty());
}

#[test]
fn an_export_imports_into_an_empty_workspace() {
    let archive = archive();
    let mut state = WorkingSet {
        projects: Vec::new(),
        sessions: Vec::new(),
        runs: Vec::new(),
        journals: Vec::new(),
    };
    let (mut messages, mut agents, mut providers) = (Vec::new(), Vec::new(), Vec::new());
    assert!(check_project_import(&state.projects, &messages, &state.sessions, &agents, &providers, &archive).is_ok());
    let k = import_project(
        &mut state,
        &mut messages,
        &mut agents,
        &mut providers,
        archive,
        "/fresh".into(),
        "d".repeat(40),
    )
    .unwrap();
    assert_eq!(k, 0);
    assert_eq!(state.projects[0].id, "p");
    assert_eq!(messages.len(), 3);
    assert_eq!(state.sessions[0].id, "s");
    assert_eq!(agents.len(), 2);
    assert_eq!(providers.len(), 1);
}
