use ait_application::agents::{agent_for_session, set_session_agent, set_session_config};
use ait_application::catalog::{builtin_providers, AgentConfiguration, AgentRecord};
use ait_application::errors::ErrorCode;
use ait_application::runs::SessionRecord;

fn config(effort: Option<&str>) -> AgentConfiguration {
    AgentConfiguration {
        provider_id: "builtin-codex".into(),
        model: "gpt-5.6-sol".into(),
        reasoning_effort: effort.map(|e| e.to_string()),
    }
}

fn agent(id: &str, owner: Option<&str>) -> AgentRecord {
    AgentRecord {
        id: id.into(),
        name: format!("{id} preset"),
        config: config(Some("low")),
        owner_session_id: owner.map(|o| o.to_string()),
        revision: 2,
        enabled: true,
    }
}

fn session(id: &str, agent: &str, busy: bool) -> SessionRecord {
    SessionRecord {
        id: id.into(),
        project_id: "p".into(),
        agent_id: agent.into(),
        name: String::new(),
        title: None,
        description: String::new(),
        title_generation_started: false,
        archived: false,
        current_message_id: "root".into(),
        active_run_id: busy.then(|| "run".to_string()),
        version: 5,
    }
}

#[test]
fn named_and_own_agents_are_used_as_they_are() {
    let mut agents = vec![agent("named", None), agent("mine", Some("s"))];
    assert_eq!(agent_for_session(&mut agents, "named", "s").unwrap(), "named");
    assert_eq!(agent_for_session(&mut agents, "mine", "s").unwrap(), "mine");
    assert_eq!(agents.len(), 2);
    let missing = agent_for_session(&mut agents, "nobody", "s").unwrap_err();
    assert_eq!(missing.code, ErrorCode::AgentNotFound);
}

#[test]
fn a_foreign_session_agent_is_copied() {
    let mut agents = vec![agent("theirs", Some("other"))];
    let id = agent_for_session(&mut agents, "theirs", "s").unwrap();
    assert_eq!(agents.len(), 2);
    assert_eq!(agents[1].id, id);
    assert_eq!(agents[1].name, "theirs preset");
    assert_eq!(agents[1].owner_session_id.as_deref(), Some("s"));
    assert_eq!(agents[1].revision, 1);
}

#[test]
fn binding_a_session_to_another_agent_raises_its_version() {
    let mut sessions = vec![session("s", "named", false)];
    let mut agents = vec![agent("named", None), agent("other", None)];
    let k = set_session_agent(&mut sessions, &mut agents, "s", "other").unwrap();
    assert_eq!(k, 0);
    assert_eq!(sessions[0].agent_id, "other");
    assert_eq!(sessions[0].version, 6);
    set_session_agent(&mut sessions, &mut agents, "s", "other").unwrap();
    assert_eq!(sessions[0].version, 6);
}

#[test]
fn binding_refusals_change_nothing() {
    let mut sessions = vec![session("s", "named", true)];
    let mut agents = vec![agent("named", None), agent("theirs", Some("other"))];
    let cases = [
        ("s", "missing", ErrorCode::AgentNotFound),
        ("nobody", "named", ErrorCode::SessionNotFound),
        ("s", "theirs", ErrorCode::SessionBusy),
    ];
    for (session_id, agent_id, code) in cases {
        let error = set_session_agent(&mut sessions, &mut agents, session_id, agent_id).unwrap_err();
        assert_eq!(error.code, code);
        assert_eq!(agents.len(), 2);
        assert_eq!(sessions[0].version, 5);
    }
}

#[test]
fn a_session_configuration_updates_its_own_agent() {
    let mut sessions = vec![session("s", "mine", false)];
    let mut agents = vec![agent("mine", Some("s"))];
    set_session_config(&mut sessions, &mut agents, &builtin_providers(), "s", config(Some("max"))).unwrap();
    assert_eq!(agents.len(), 1);
    assert_eq!(agents[0].config.reasoning_effort.as_deref(), Some("max"));
    assert_eq!(agents[0].revision, 3);
    assert_eq!(sessions[0].agent_id, "mine");
    assert_eq!(sessions[0].version, 6);
}

#[test]
fn a_session_on_a_preset_gets_its_own_agent() {
    let mut sessions = vec![session("s", "named", false)];
    let mut agents = vec![agent("named", None)];
    set_session_config(&mut sessions, &mut agents, &builtin_providers(), "s", config(None)).unwrap();
    assert_eq!(agents.len(), 2);
    assert_eq!(agents[0].revision, 2);
    assert_eq!(agents[1].name, "");
    assert_eq!(agents[1].owner_session_id.as_deref(), Some("s"));
    assert_eq!(agents[1].revision, 1);
    assert_eq!(sessions[0].agent_id, agents[1].id);
}

#[test]
fn session_configuration_refusals() {
    let mut sessions = vec![session("s", "named", true), session("t", "gone", false)];
    let mut agents = vec![agent("named", None)];
    let providers = builtin_providers();
    let bad = set_session_config(&mut sessions, &mut agents, &providers, "s", config(Some("huge"))).unwrap_err();
    assert_eq!(bad.code, ErrorCode::InvalidAgentConfiguration);
    let missing = set_session_config(&mut sessions, &mut agents, &providers, "x", config(None)).unwrap_err();
    assert_eq!(missing.code, ErrorCode::SessionNotFound);
    let busy = set_session_config(&mut sessions, &mut agents, &providers, "s", config(None)).unwrap_err();
    assert_eq!(busy.code, ErrorCode::SessionBusy);
    let no_agent = set_session_config(&mut sessions, &mut agents, &providers, "t", config(None)).unwrap_err();
    assert_eq!(no_agent.code, ErrorCode::AgentNotFound);
    assert_eq!(agents.len(), 1);
}

#[test]
fn rebinding_to_the_same_preset_changes_nothing() {
    let mut sessions = vec![session("s", "named", false)];
    let mut agents = vec![agent("named", None), agent("other", None)];
    let first = set_session_agent(&mut sessions, &mut agents, "s", "other").unwrap();
    let version = sessions[0].version;
    let second = set_session_agent(&mut sessions, &mut agents, "s", "other").unwrap();
    assert_eq!(first, second);
    assert_eq!(sessions[0].version, version);
    assert_eq!(agents.len(), 2);
}
