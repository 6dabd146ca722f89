use ait_application::catalog::{AgentConfiguration, AgentRecord};
use ait_application::conversation::MessageRecord;
use ait_application::errors::ErrorCode;
use ait_application::projects::{register_project, set_project_default_agent, validate_project_registration};
use ait_application::runs::ProjectRecord;

fn agent(id: &str, owner: Option<&str>) -> AgentRecord {
    AgentRecord {
        id: id.into(),
        name: "preset".into(),
        config: AgentConfiguration {
            provider_id: "builtin-codex".into(),
            model: "gpt-5.6-sol".into(),
            reasoning_effort: None,
        },
        owner_session_id: owner.map(|o| o.to_string()),
        revision: 1,
        enabled: true,
    }
}

#[test]
fn a_project_is_registered_with_its_root_message() {
    let mut projects: Vec<ProjectRecord> = Vec::new();
    let mut messages: Vec<MessageRecord> = Vec::new();
    let k = register_project(
        &mut projects,
        &mut messages,
        "p".into(),
        "Project".into(),
        "/work/p".into(),
        "b".repeat(40),
        Some("  https://example.test/repo.git \n".into()),
    )
    .unwrap();
    let project = &projects[k];
    assert_eq!(project.repo_url.as_deref(), Some("https://example.test/repo.git"));
    assert_eq!(project.revision, 1);
    assert!(project.default_agent_id.is_none());
    assert_eq!(messages.len(), 1);
    assert_eq!(project.root_message_id, messages[0].id);
    assert_eq!(messages[0].role, "system");
    assert_eq!(messages[0].text.as_deref(), Some("AIT project instructions"));
    assert!(messages[0].parent_message_id.is_none());

    let again = register_project(
        &mut projects,
        &mut messages,
        "q".into(),
        "Other".into(),
        "/work/p".into(),
        "b".repeat(40),
        None,
    )
    .unwrap_err();
    assert_eq!(again.code, ErrorCode::ProjectPathAlreadyRegistered);
    assert_eq!(projects.len(), 1);
    assert_eq!(messages.len(), 1);
}

#[test]
fn registration_refusals() {
    let mut projects: Vec<ProjectRecord> = Vec::new();
    let mut messages: Vec<MessageRecord> = Vec::new();
    register_project(&mut projects, &mut messages, "p".into(), "P".into(), "/w".into(), "b".into(), None).unwrap();
    let blank = validate_project_registration(&projects, " ", "P", &None).unwrap_err();
    assert_eq!(blank.message, "project id and name are required");
    let taken = validate_project_registration(&projects, "p", "P", &None).unwrap_err();
    assert_eq!(taken.message, "project id already exists");
    let url = validate_project_registration(&projects, "q", "Q", &Some(" \t".into())).unwrap_err();
    assert_eq!(url.message, "repository URL cannot be empty");
    assert_eq!(url.code, ErrorCode::InvalidProject);
    assert_eq!(validate_project_registration(&projects, "q", "Q", &Some(" u ".into())).unwrap(), Some("u".to_string()));
}

#[test]
fn a_named_preset_becomes_the_project_default() {
    let mut projects: Vec<ProjectRecord> = Vec::new();
    let mut messages: Vec<MessageRecord> = Vec::new();
    register_project(&mut projects, &mut messages, "p".into(), "P".into(), "/w".into(), "b".into(), None).unwrap();
    let agents = vec![agent("named", None), agent("own", Some("s"))];
    set_project_default_agent(&mut projects, &agents, "p", "named").unwrap();
    assert_eq!(projects[0].default_agent_id.as_deref(), Some("named"));
    assert_eq!(projects[0].revision, 2);
    let own = set_project_default_agent(&mut projects, &agents, "p", "own").unwrap_err();
    assert_eq!(own.code, ErrorCode::InvalidAgentConfiguration);
    let missing = set_project_default_agent(&mut projects, &agents, "x", "named").unwrap_err();
    assert_eq!(missing.code, ErrorCode::InvalidProject);
    assert_eq!(projects[0].revision, 2);
}
