use ait_application::conversation::MessageRecord;
use ait_application::errors::ErrorCode;
use ait_application::runs::{ProjectRecord, SessionRecord, WorkingSet};
use ait_application::titles::{begin_title_generation, finish_title_generation, title_prompt};

fn message(id: &str, parent: Option<&str>, role: &str) -> MessageRecord {
    MessageRecord {
        id: id.into(),
        project_id: "p".into(),
        parent_message_id: parent.map(|p| p.to_string()),
        role: role.into(),
        kind: "standard".into(),
        text: Some("x".into()),
        git_commit: None,
        data: None,
        created_at: 1,
    }
}

fn state(head: &str, name: &str) -> WorkingSet {
    WorkingSet {
        projects: vec![ProjectRecord {
            id: "p".into(),
            name: "P".into(),
            workdir: "/work/p".into(),
            root_message_id: "root".into(),
            repo_url: None,
            base_commit: "a".repeat(40),
            default_agent_id: None,
            revision: 1,
        }],
        sessions: vec![SessionRecord {
            id: "s".into(),
            project_id: "p".into(),
            agent_id: "agent".into(),
            name: name.into(),
            title: None,
            description: String::new(),
            title_generation_started: false,
            archived: false,
            current_message_id: head.into(),
            active_run_id: None,
            version: 1,
        }],
        runs: Vec::new(),
        journals: Vec::new(),
    }
}

#[test]
fn title_prompts_are_bounded_and_not_blank() {
    assert_eq!(title_prompt("  add a parser ").unwrap(), "  add a parser ");
    let long = "é".repeat(2_500);
    assert_eq!(title_prompt(&long).unwrap().chars().count(), 2_000);
    let blank = title_prompt(" \n\t").unwrap_err();
    assert_eq!(blank.code, ErrorCode::InvalidSession);
    assert_eq!(blank.message, "Session title prompt is empty");
}

#[test]
fn a_named_session_gets_no_generated_title() {
    let mut state = state("root", "mine");
    let messages = vec![message("root", None, "system")];
    let start = begin_title_generation(&mut state, &messages, "s", &mut Vec::new()).unwrap();
    assert!(!start.generate);
    assert_eq!(start.workdir, "/work/p");
    assert!(!state.sessions[0].title_generation_started);
}

#[test]
fn a_session_before_its_first_answer_is_refused() {
    let mut state = state("root", "");
    let messages = vec![message("root", None, "system")];
    let error = begin_title_generation(&mut state, &messages, "s", &mut Vec::new()).unwrap_err();
    assert_eq!(error.message, "Session has not completed its first interaction");
    let missing = begin_title_generation(&mut state, &messages, "x", &mut Vec::new()).unwrap_err();
    assert_eq!(missing.code, ErrorCode::SessionNotFound);
}

#[test]
fn a_generated_title_lands_on_the_session() {
    let mut sessions = state("root", "").sessions;
    let k = finish_title_generation(&mut sessions, "s", "Parser".into(), "Adds a parser".into(), &mut Vec::new()).unwrap();
    assert_eq!(sessions[k].title.as_deref(), Some("Parser"));
    assert_eq!(sessions[k].description, "Adds a parser");
    let missing = finish_title_generation(&mut sessions, "x", "T".into(), "D".into(), &mut Vec::new()).unwrap_err();
    assert_eq!(missing.code, ErrorCode::SessionNotFound);
}
