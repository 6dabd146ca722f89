use ait_application::errors::ErrorCode;
use ait_application::runs::SessionRecord;
use ait_application::sessions::{
    collapse_whitespace_str, rename_session, set_session_archived, set_session_title,
    check_session_admission, command_session, ensure_idle, plan_session_leases,
    session_command_project_id, session_worktree_path, validate_session_metadata,
    validate_session_path_component, SessionAdmission, SessionCommand,
};
use std::sync::Arc;

fn session(id: &str, active: Option<&str>) -> SessionRecord {
    SessionRecord {
        id: id.into(),
        project_id: format!("project-of-{id}"),
        agent_id: "agent".into(),
        name: String::new(),
        title: None,
        description: String::new(),
        title_generation_started: false,
        archived: false,
        current_message_id: "m".into(),
        active_run_id: active.map(str::to_owned),
        version: 1,
    }
}

#[test]
fn session_ids_must_be_safe_path_components() {
    assert!(validate_session_path_component("fork-1").is_ok());
    for reserved in ["project.sqlite3", "PROJECT.SQLITE3-WAL", "project.sqlite3-shm. .", "Project.Sqlite3-Journal "] {
        let refused = validate_session_path_component(reserved).unwrap_err();
        assert_eq!(refused.code, ErrorCode::InvalidSession);
        assert_eq!(refused.message, "session id is reserved for project storage");
    }
    for unsafe_id in ["", "  ", ".", "..", "a/b", "a\\b", "a\u{1}b"] {
        assert_eq!(
            validate_session_path_component(unsafe_id).unwrap_err().message,
            "session id must be a nonempty safe path component"
        );
    }
    assert!(validate_session_path_component("project.sqlite3x").is_ok());
}

#[test]
fn worktrees_live_under_the_project_ait_directory() {
    assert_eq!(session_worktree_path("/work/p", "s1").unwrap(), "/work/p/.ait/s1");
    assert_eq!(session_worktree_path("/work/p/", "s1").unwrap(), "/work/p/.ait/s1");
    assert!(session_worktree_path("/work/p", "..").is_err());
}

#[test]
fn generated_metadata_must_fit_the_constraints() {
    assert!(validate_session_metadata("  Fix the parser  ", "Repairs parsing").is_ok());
    for (title, description) in [
        ("", "d"),
        ("Title", "  "),
        ("A \"quoted\" title", "d"),
        ("Ends with a period.", "d"),
        ("Question？", "d"),
        ("x123456789x123456789x123456789x1234567", "d"),
    ] {
        let refused = validate_session_metadata(title, description).unwrap_err();
        assert_eq!(refused.code, ErrorCode::InvalidSession);
        assert_eq!(refused.message, "generated Session metadata is outside the requested constraints");
    }
    assert!(validate_session_metadata(&"界".repeat(36), "d").is_ok());
}

#[test]
fn busy_sessions_refuse_commands() {
    assert!(ensure_idle(&session("s", None)).is_ok());
    let busy = ensure_idle(&session("s", Some("r"))).unwrap_err();
    assert_eq!(busy.code, ErrorCode::SessionBusy);
    assert_eq!(busy.message, "session already has an active run or operation");
    let sessions = vec![session("s", Some("r")), session("t", None)];
    let send = SessionCommand::SendMessage { session_id: "s".into() };
    assert!(check_session_admission(&sessions, &send).is_err());
    let other = SessionCommand::SetSessionConfig { session_id: "t".into() };
    assert!(check_session_admission(&sessions, &other).is_ok());
    let create = SessionCommand::CreateSession {
        id: "new".into(),
        project_id: "p".into(),
    };
    assert!(check_session_admission(&sessions, &create).is_ok());
    assert_eq!(command_session(&create), Some("new"));
    assert_eq!(command_session(&SessionCommand::Other), None);
}

#[test]
fn commands_name_the_project_they_write() {
    let sessions = vec![session("s", None)];
    let send = SessionCommand::SendMessage { session_id: "s".into() };
    assert_eq!(session_command_project_id(&sessions, &send).unwrap(), Some("project-of-s"));
    let derive = SessionCommand::DeriveSession {
        id: "d".into(),
        project_id: "p".into(),
        source_session_id: "missing".into(),
    };
    assert_eq!(session_command_project_id(&sessions, &derive).unwrap_err().code, ErrorCode::SessionNotFound);
    let fork = SessionCommand::ForkSession {
        id: "f".into(),
        project_id: "p".into(),
    };
    assert_eq!(session_command_project_id(&sessions, &fork).unwrap(), Some("p"));
    assert_eq!(session_command_project_id(&sessions, &SessionCommand::Other).unwrap(), None);
}

#[test]
fn leases_cover_a_derivations_source_when_it_is_free() {
    let derive = SessionCommand::DeriveSession {
        id: "d".into(),
        project_id: "p".into(),
        source_session_id: "s".into(),
    };
    let (ids, locked) = plan_session_leases(&derive, &Vec::new()).unwrap();
    assert_eq!(ids, vec!["d".to_string(), "s".to_string()]);
    assert!(locked);
    let (ids, locked) = plan_session_leases(&derive, &vec!["s".to_string()]).unwrap();
    assert_eq!(ids, vec!["d".to_string()]);
    assert!(!locked);
    let refused = plan_session_leases(&derive, &vec!["d".to_string()]).unwrap_err();
    assert_eq!(refused.code, ErrorCode::SessionBusy);
    let (ids, _) = plan_session_leases(&SessionCommand::Other, &Vec::new()).unwrap();
    assert!(ids.is_empty());

    let mut admission = SessionAdmission::new(
        vec![("d".into(), Arc::new(())), ("s".into(), Arc::new(()))],
        true,
    );
    assert!(admission.derive_source_locked());
    admission.retain_for_session("d");
    assert!(admission.derive_source_locked());
}

#[test]
fn white_space_collapses_to_single_spaces() {
    assert_eq!(collapse_whitespace_str("  a \t b\n\nc  "), "a b c");
    assert_eq!(collapse_whitespace_str(" \u{3000} "), "");
    assert_eq!(collapse_whitespace_str("one"), "one");
}

#[test]
fn names_and_titles_are_normalised_and_bounded() {
    let mut sessions = vec![session("s", None)];
    assert_eq!(rename_session(&mut sessions, "s", "  My   session ").unwrap(), 0);
    assert_eq!(sessions[0].name, "My session");
    let long = rename_session(&mut sessions, "s", &"n".repeat(101)).unwrap_err();
    assert_eq!(long.message, "Session name must be at most 100 characters");
    assert_eq!(rename_session(&mut sessions, "x", "n").unwrap_err().code, ErrorCode::SessionNotFound);

    assert_eq!(set_session_title(&mut sessions, "s", " Draft  title ").unwrap(), 0);
    assert_eq!(sessions[0].title.as_deref(), Some("Draft title"));
    assert_eq!(
        set_session_title(&mut sessions, "s", "   ").unwrap_err().message,
        "Temporary Session title must contain 1 to 60 characters"
    );
    sessions[0].title_generation_started = true;
    set_session_title(&mut sessions, "s", "Other").unwrap();
    assert_eq!(sessions[0].title.as_deref(), Some("Draft title"));

    assert_eq!(set_session_archived(&mut sessions, "s", true).unwrap(), (0, true));
    assert!(sessions[0].archived);
    assert_eq!(set_session_archived(&mut sessions, "s", true).unwrap(), (0, false));
    let mut busy = vec![session("b", Some("run"))];
    assert_eq!(set_session_archived(&mut busy, "b", true).unwrap_err().code, ErrorCode::SessionBusy);
    assert_eq!(set_session_archived(&mut busy, "b", false).unwrap(), (0, false));
}
