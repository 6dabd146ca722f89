use ait_application::catalog::{AgentConfiguration, AgentProvider, AgentProviderView, AgentRecord};
use ait_application::codex::{
    bound_provider_payload, bound_session, materialize_thread, CodexSnapshot, extends_parent, history_api_error, is_sensitive_key,
    normalize_turns, owning_projects, project_messages, push_json, resolve_lineage,
    sanitize_provider_value, turn_segments, validate_codex_provider, validate_import_binding,
    validate_item_identities, validate_snapshot_identity, CodexTurn, Completeness, Json,
    PlannedRole, Relationship, SubMessage, ThreadBinding,
};
use ait_application::errors::{DomainError, ErrorCode};
use ait_application::permissions::AgentMode;

fn s(text: &str) -> Json {
    Json::Str(text.into())
}

fn obj(members: Vec<(&str, Json)>) -> Json {
    let mut members: Vec<(String, Json)> = members.into_iter().map(|(k, v)| (k.to_string(), v)).collect();
    members.sort_by(|a, b| a.0.cmp(&b.0));
    Json::Object(members)
}

fn item(id: &str, kind: &str, mut body: Vec<(&str, Json)>) -> Json {
    body.push(("id", s(id)));
    body.push(("type", s(kind)));
    obj(body)
}

fn user(id: &str, text: &str) -> Json {
    item(
        id,
        "userMessage",
        vec![("content", Json::Array(vec![obj(vec![("type", s("text")), ("text", s(text))])]))],
    )
}

fn agent_message(id: &str, text: &str) -> Json {
    item(id, "agentMessage", vec![("text", s(text))])
}

fn turn(id: &str, items: Vec<Json>) -> CodexTurn {
    CodexTurn {
        id: id.into(),
        status: "completed".into(),
        items,
        items_full: true,
        error: None,
        started_at: Some(10),
        completed_at: Some(11),
    }
}

fn text_of(v: &Json) -> String {
    let mut out = Vec::new();
    push_json(&mut out, v);
    String::from_utf8(out).unwrap()
}

fn member<'a>(v: &'a Json, key: &str) -> &'a Json {
    match v {
        Json::Object(members) => &members.iter().find(|(k, _)| k == key).unwrap().1,
        _ => panic!("not an object"),
    }
}

#[test]
fn sensitive_keys_are_recognised_in_any_ascii_case() {
    assert!(is_sensitive_key("authorization"));
    assert!(is_sensitive_key("access_token"));
    assert!(is_sensitive_key("Session_TOKEN"));
    assert!(is_sensitive_key("x-Secret-y"));
    assert!(is_sensitive_key("PASSWORD"));
    assert!(is_sensitive_key("credentials"));
    assert!(!is_sensitive_key("model"));
    assert!(!is_sensitive_key("tok"));
}

#[test]
fn provider_payload_redacts_nested_sensitive_fields() {
    let value = item(
        "command",
        "commandExecution",
        vec![
            ("authorization", s("Bearer private")),
            ("nested", obj(vec![("access_token", s("private"))])),
        ],
    );
    let clean = sanitize_provider_value(&value, 0);
    assert_eq!(text_of(member(&clean, "authorization")), "\"[redacted]\"");
    assert_eq!(text_of(member(member(&clean, "nested"), "access_token")), "\"[redacted]\"");
    assert_eq!(text_of(member(&clean, "id")), "\"command\"");
    let metadata = obj(vec![("model", s("gpt-5.6-sol")), ("session_token", s("private"))]);
    let clean = sanitize_provider_value(&metadata, 0);
    assert_eq!(text_of(&clean), "{\"model\":\"gpt-5.6-sol\",\"session_token\":\"[redacted]\"}");
}

#[test]
fn sanitizing_bounds_depth_length_and_count() {
    let mut deep = s("leaf");
    for _ in 0..20 {
        deep = Json::Array(vec![deep]);
    }
    let clean = sanitize_provider_value(&deep, 0);
    let text = text_of(&clean);
    assert_eq!(text, format!("{}\"[truncated-depth]\"{}", "[".repeat(16), "]".repeat(16)));
    let long = s(&"é".repeat(20_005));
    match sanitize_provider_value(&long, 0) {
        Json::Str(t) => assert_eq!(t.chars().count(), 20_000),
        _ => panic!("expected a string"),
    }
    let many = Json::Array((0..300).map(|i| Json::Number(i.to_string())).collect());
    match sanitize_provider_value(&many, 0) {
        Json::Array(items) => assert_eq!(items.len(), 256),
        _ => panic!("expected an array"),
    }
    assert_eq!(text_of(&sanitize_provider_value(&Json::Bool(true), 16)), "\"[truncated-depth]\"");
}

#[test]
fn json_text_is_compact_and_escaped() {
    let value = obj(vec![
        ("a", Json::Array(vec![Json::Null, Json::Bool(false), Json::Number("-1.5".into())])),
        ("b", s("q\"\\\n\u{1}é")),
    ]);
    assert_eq!(text_of(&value), "{\"a\":[null,false,-1.5],\"b\":\"q\\\"\\\\\\n\\u0001é\"}");
}

#[test]
fn large_payloads_are_replaced_by_length_and_digest() {
    let small = obj(vec![("x", s("y"))]);
    assert_eq!(text_of(&bound_provider_payload(&small)), "{\"x\":\"y\"}");
    let big = Json::Array((0..256).map(|_| s(&"a".repeat(2_000))).collect());
    let bounded = bound_provider_payload(&big);
    let length = 2 + 256 * 2_002 + 255;
    assert_eq!(text_of(member(&bounded, "byte_length")), length.to_string());
    assert_eq!(text_of(member(&bounded, "truncated")), "true");
    match member(&bounded, "sha256") {
        Json::Str(hash) => {
            assert_eq!(hash.len(), 64);
            assert!(hash.chars().all(|c| c.is_ascii_hexdigit() && !c.is_ascii_uppercase()));
        },
        _ => panic!("expected a digest"),
    }
}

#[test]
fn item_identities_must_be_present_and_distinct() {
    assert!(validate_item_identities(&vec![user("a", "x"), agent_message("b", "y")]));
    assert!(!validate_item_identities(&vec![user("a", "x"), agent_message("a", "y")]));
    assert!(!validate_item_identities(&vec![obj(vec![("type", s("agentMessage"))])]));
    assert!(!validate_item_identities(&vec![obj(vec![("id", s("a")), ("type", s(""))])]));
    assert!(validate_item_identities(&vec![]));
}

#[test]
fn one_turn_splits_into_user_and_assistant_segments() {
    let items = vec![
        user("user-1", "first"),
        agent_message("agent-1", "answer"),
        user("user-2", "steer"),
        agent_message("agent-2", "final"),
    ];
    let segments = turn_segments(&items);
    let shape: Vec<(bool, usize, usize)> = segments.iter().map(|s| (s.user, s.start, s.end)).collect();
    assert_eq!(shape, vec![(true, 0, 1), (false, 1, 2), (true, 2, 3), (false, 3, 4)]);
    let grouped = turn_segments(&vec![agent_message("a", "1"), agent_message("b", "2"), user("u", "x")]);
    let shape: Vec<(bool, usize, usize)> = grouped.iter().map(|s| (s.user, s.start, s.end)).collect();
    assert_eq!(shape, vec![(false, 0, 2), (true, 2, 3)]);
    let empty = turn_segments(&vec![]);
    let shape: Vec<(bool, usize, usize)> = empty.iter().map(|s| (s.user, s.start, s.end)).collect();
    assert_eq!(shape, vec![(false, 0, 0)]);
}

#[test]
fn incomplete_tail_is_left_out_and_marks_history_partial() {
    let mut active = turn("active", vec![user("pending", "not published")]);
    active.status = "inProgress".into();
    active.completed_at = None;
    let turns = vec![turn("complete", vec![user("user", "published")]), active];
    let (published, completeness) = normalize_turns(&turns, false, &vec![]).unwrap();
    assert_eq!(completeness, Completeness::Partial);
    assert_eq!(published.len(), 1);
    assert_eq!(published[0].id, "complete");
    assert_eq!(published[0].content_hash.len(), 64);
}

#[test]
fn finished_turn_after_an_incomplete_one_is_refused() {
    let mut partial = turn("partial", vec![user("u1", "x")]);
    partial.items_full = false;
    let turns = vec![partial, turn("done", vec![user("u2", "y")])];
    let error = normalize_turns(&turns, false, &vec![]).unwrap_err();
    assert_eq!(error.code, ErrorCode::CodexHistoryIncomplete);
    assert!(!error.retryable);
}

#[test]
fn duplicate_item_ids_are_refused() {
    let turns = vec![turn("t", vec![user("same", "x"), agent_message("same", "y")])];
    let error = normalize_turns(&turns, false, &vec![]).unwrap_err();
    assert_eq!(error.code, ErrorCode::CodexTurnIdConflict);
}

#[test]
fn interrupted_turn_is_published_once_confirmed() {
    let mut interrupted = turn("cut", vec![user("u", "x")]);
    interrupted.status = "interrupted".into();
    interrupted.completed_at = None;
    let turns = vec![interrupted];
    let (published, completeness) = normalize_turns(&turns, false, &vec![]).unwrap();
    assert!(published.is_empty());
    assert_eq!(completeness, Completeness::Partial);
    let (published, completeness) = normalize_turns(&turns, true, &vec![]).unwrap();
    assert_eq!(published.len(), 1);
    assert_eq!(completeness, Completeness::Full);
    let hash = published[0].content_hash.clone();
    let (again, completeness) = normalize_turns(&turns, false, &vec![hash.clone()]).unwrap();
    assert_eq!(again.len(), 1);
    assert_eq!(again[0].content_hash, hash);
    assert_eq!(completeness, Completeness::Full);
}

#[test]
fn content_hash_changes_with_the_turn_content() {
    let a = normalize_turns(&vec![turn("t", vec![user("u", "x")])], false, &vec![]).unwrap().0;
    let b = normalize_turns(&vec![turn("t", vec![user("u", "y")])], false, &vec![]).unwrap().0;
    let c = normalize_turns(&vec![turn("t", vec![user("u", "x")])], false, &vec![]).unwrap().0;
    assert_ne!(a[0].content_hash, b[0].content_hash);
    assert_eq!(a[0].content_hash, c[0].content_hash);
}

fn binding(thread: &str, lineage: &str, turns: Vec<(String, String)>) -> ThreadBinding {
    ThreadBinding {
        session_id: format!("session-{thread}"),
        project_id: "project".into(),
        agent_id: "agent".into(),
        provider_id: "builtin-codex".into(),
        thread_id: thread.into(),
        lineage_id: lineage.into(),
        relationship: Relationship::Independent,
        history_full: true,
        turns,
    }
}

#[test]
fn fork_with_verified_prefix_reuses_parent_lineage() {
    let prefix = turn("shared-turn", vec![user("shared-user", "hello"), agent_message("shared-agent", "answer")]);
    let parent = normalize_turns(&vec![prefix], false, &vec![]).unwrap().0;
    let parent_keys: Vec<(String, String)> =
        parent.iter().map(|t| (t.id.clone(), t.content_hash.clone())).collect();
    let child_turns = vec![
        turn("shared-turn", vec![user("shared-user", "hello"), agent_message("shared-agent", "answer")]),
        turn("child-turn", vec![user("child-user", "next")]),
    ];
    let child = normalize_turns(&child_turns, false, &vec![]).unwrap().0;
    assert!(extends_parent(&parent_keys, &child));
    let bindings = vec![binding("parent", "parent-lineage", parent_keys.clone())];
    let (lineage, relationship) =
        resolve_lineage("child", Some("parent"), "builtin-codex", "project", None, &bindings, &child);
    assert_eq!(lineage, "parent-lineage");
    assert_eq!(relationship, Relationship::Verified);

    let other = normalize_turns(&vec![turn("other", vec![user("o", "z")])], false, &vec![]).unwrap().0;
    assert!(!extends_parent(&parent_keys, &other));
    let (lineage, relationship) =
        resolve_lineage("child", Some("parent"), "builtin-codex", "project", None, &bindings, &other);
    assert_eq!(relationship, Relationship::Unresolved);
    assert_eq!(lineage.len(), 36);
    assert_ne!(lineage, "parent-lineage");

    let (independent, relationship) =
        resolve_lineage("child", None, "builtin-codex", "project", None, &bindings, &other);
    assert_eq!(relationship, Relationship::Independent);
    assert_eq!(independent, lineage);

    let existing = binding("child", "kept", vec![]);
    let (kept, _) =
        resolve_lineage("child", Some("parent"), "builtin-codex", "project", Some(&existing), &bindings, &child);
    assert_eq!(kept, "kept");
}

#[test]
fn projection_chains_messages_from_a_stable_root() {
    let turns = vec![turn(
        "turn",
        vec![
            user("user-1", "first"),
            agent_message("agent-1", "answer"),
            user("user-2", "steer"),
            agent_message("agent-2", "final"),
        ],
    )];
    let published = normalize_turns(&turns, false, &vec![]).unwrap().0;
    let messages = project_messages("project", "builtin-codex", "lineage", 1, 12, &published).unwrap();
    let roles: Vec<PlannedRole> = messages.iter().map(|m| m.planned.role).collect();
    assert_eq!(
        roles,
        vec![PlannedRole::Root, PlannedRole::User, PlannedRole::Assistant, PlannedRole::User, PlannedRole::Assistant]
    );
    assert_eq!(messages[0].planned.created_at, 1_000);
    assert_eq!(messages[1].planned.created_at, 11_000);
    assert_eq!(messages[4].planned.created_at, 11_003);
    for k in 1..messages.len() {
        assert_eq!(messages[k].planned.parent_id.as_deref(), Some(messages[k - 1].planned.id.as_str()));
    }
    assert!(messages[0].planned.parent_id.is_none());
    match &messages[1].parts[..] {
        [SubMessage::Text { text }] => assert_eq!(text, "first"),
        other => panic!("unexpected parts {other:?}"),
    }
    match &messages[2].parts[..] {
        [SubMessage::ProviderItem { ordinal, external_item_id, item_type, provider_kind, .. }] => {
            assert_eq!(*ordinal, 1);
            assert_eq!(external_item_id, "agent-1");
            assert_eq!(item_type, "agentMessage");
            assert_eq!(provider_kind, "codex");
        },
        other => panic!("unexpected parts {other:?}"),
    }
    match &messages[4].parts[..] {
        [SubMessage::ProviderItem { ordinal, .. }] => assert_eq!(*ordinal, 3),
        other => panic!("unexpected parts {other:?}"),
    }
    match &messages[0].parts[..] {
        [SubMessage::StructuredData { media_type, value }] => {
            assert_eq!(media_type, "application/vnd.ait.codex.synthetic-root+json");
            assert_eq!(
                text_of(value),
                "{\"lineage_id\":\"lineage\",\"provider_id\":\"builtin-codex\",\"schema_version\":1}"
            );
        },
        other => panic!("unexpected parts {other:?}"),
    }
    let again = project_messages("project", "builtin-codex", "lineage", 1, 12, &published).unwrap();
    let ids: Vec<&String> = messages.iter().map(|m| &m.planned.id).collect();
    let again_ids: Vec<&String> = again.iter().map(|m| &m.planned.id).collect();
    assert_eq!(ids, again_ids);
}

#[test]
fn empty_turn_projects_one_status_message() {
    let mut empty = turn("empty", vec![]);
    empty.error = Some(obj(vec![("message", s("boom"))]));
    empty.status = "failed".into();
    let published = normalize_turns(&vec![empty], false, &vec![]).unwrap().0;
    let messages = project_messages("p", "builtin-codex", "l", 0, 5, &published).unwrap();
    assert_eq!(messages.len(), 2);
    match &messages[1].parts[..] {
        [SubMessage::StructuredData { media_type, value }] => {
            assert_eq!(media_type, "application/vnd.ait.codex.empty-turn+json");
            assert_eq!(text_of(value), "{\"error\":{\"message\":\"boom\"},\"status\":\"failed\"}");
        },
        other => panic!("unexpected parts {other:?}"),
    }
    assert_eq!(messages[1].planned.role, PlannedRole::Assistant);
}

#[test]
fn text_elements_and_other_inputs_are_kept() {
    let input = obj(vec![
        ("type", s("text")),
        ("text", s("hi")),
        ("text_elements", Json::Array(vec![])),
    ]);
    let image = obj(vec![("type", s("image")), ("url", s("x"))]);
    let item = item("u", "userMessage", vec![("content", Json::Array(vec![input, image]))]);
    let published = normalize_turns(&vec![turn("t", vec![item])], false, &vec![]).unwrap().0;
    let messages = project_messages("p", "builtin-codex", "l", 0, 5, &published).unwrap();
    match &messages[1].parts[..] {
        [SubMessage::Text { text }, SubMessage::StructuredData { media_type: a, .. }, SubMessage::StructuredData { media_type: b, value }] => {
            assert_eq!(text, "hi");
            assert_eq!(a, "application/vnd.openai.codex.text-elements+json");
            assert_eq!(b, "application/vnd.openai.codex.user-input+json");
            assert_eq!(text_of(value), "{\"type\":\"image\",\"url\":\"x\"}");
        },
        other => panic!("unexpected parts {other:?}"),
    }
}

#[test]
fn snapshot_identities_must_be_usable() {
    assert!(validate_snapshot_identity("t", "s", "/tmp/p", "prov", "proj", "agent").is_ok());
    let error = validate_snapshot_identity("t", " ", "/tmp/p", "prov", "proj", "agent").unwrap_err();
    assert_eq!(error.code, ErrorCode::CodexHistoryReadFailed);
    assert!(validate_snapshot_identity("t", "s", "relative", "prov", "proj", "agent").is_err());
}

#[test]
fn a_thread_is_bound_once_and_in_its_project() {
    let bindings = vec![binding("a", "l", vec![]), binding("b", "l", vec![])];
    assert_eq!(bound_session(&bindings, "builtin-codex", "b", "project").unwrap(), Some(1));
    assert_eq!(bound_session(&bindings, "builtin-codex", "c", "project").unwrap(), None);
    let error = bound_session(&bindings, "builtin-codex", "a", "elsewhere").unwrap_err();
    assert_eq!(error.code, ErrorCode::CodexThreadBindingConflict);
    let twice = vec![binding("a", "l", vec![]), binding("a", "m", vec![])];
    assert!(bound_session(&twice, "builtin-codex", "a", "project").is_err());
}

fn dirs(entries: &[(&str, &[&str])]) -> Vec<(String, Vec<String>)> {
    entries
        .iter()
        .map(|(id, parts)| (id.to_string(), parts.iter().map(|p| p.to_string()).collect()))
        .collect()
}

#[test]
fn owners_come_from_project_roots_and_session_workdirs() {
    let cwd: Vec<String> = ["/", "work", "project", "sub"].iter().map(|p| p.to_string()).collect();
    let roots = dirs(&[("p1", &["/", "work", "project"]), ("p2", &["/", "other"]), ("p1", &["/", "work"])]);
    let sessions = dirs(&[("p3", &["/", "work", "project", "sub"]), ("p4", &["/", "work", "project"])]);
    let owners = owning_projects(&cwd, &roots, &sessions);
    assert_eq!(owners, vec!["p1".to_string(), "p3".to_string()]);
    assert!(owning_projects(&cwd, &dirs(&[]), &dirs(&[])).is_empty());
}

fn providers() -> Vec<AgentProviderView> {
    let provider = |id: &str, kind| AgentProviderView {
        provider: AgentProvider { id: id.into(), name: id.into(), kind, url: None, models: vec![] },
        has_secret: false,
    };
    vec![provider("builtin-codex", AgentMode::Codex), provider("builtin-openai", AgentMode::OpenAI)]
}

fn agents() -> Vec<AgentRecord> {
    vec![AgentRecord {
        id: "agent".into(),
        name: "Agent".into(),
        config: AgentConfiguration {
            provider_id: "builtin-codex".into(),
            model: "gpt".into(),
            reasoning_effort: None,
        },
        owner_session_id: None,
        revision: 1,
        enabled: true,
    }]
}

#[test]
fn import_binding_checks_provider_agent_and_ownership() {
    assert!(validate_codex_provider(&providers(), "builtin-codex").is_ok());
    let e = validate_codex_provider(&providers(), "builtin-openai").unwrap_err();
    assert_eq!(e.message, "history import requires a Codex Provider");
    let e = validate_codex_provider(&providers(), "missing").unwrap_err();
    assert_eq!(e.message, "Codex Provider is not registered");

    let owners = vec!["project".to_string()];
    let ok = validate_import_binding(&providers(), &agents(), &vec![], &owners, "t", "builtin-codex", "project", "agent");
    assert!(ok.is_ok());
    let e = validate_import_binding(&providers(), &agents(), &vec![], &owners, "t", "builtin-codex", "project", "nobody")
        .unwrap_err();
    assert_eq!(e.code, ErrorCode::AgentNotFound);
    assert_eq!(e.message, "enabled Agent not found");
    let e = validate_import_binding(&providers(), &agents(), &vec![], &vec![], "t", "builtin-codex", "project", "agent")
        .unwrap_err();
    assert_eq!(e.code, ErrorCode::CodexThreadProjectUnbound);
    let two = vec!["project".to_string(), "other".to_string()];
    let e = validate_import_binding(&providers(), &agents(), &vec![], &two, "t", "builtin-codex", "project", "agent")
        .unwrap_err();
    assert_eq!(e.code, ErrorCode::CodexThreadProjectAmbiguous);
    let other = vec!["other".to_string()];
    let e = validate_import_binding(&providers(), &agents(), &vec![], &other, "t", "builtin-codex", "project", "agent")
        .unwrap_err();
    assert_eq!(e.code, ErrorCode::CodexThreadBindingConflict);
    let bound = vec![binding("t", "l", vec![])];
    assert!(validate_import_binding(&providers(), &agents(), &bound, &vec![], "t", "builtin-codex", "project", "agent")
        .is_ok());
    let e = validate_import_binding(&providers(), &agents(), &bound, &owners, "t", "builtin-codex", "elsewhere", "agent")
        .unwrap_err();
    assert_eq!(e.message, "Codex Thread is already bound to another Project or Agent");
}

#[test]
fn history_failures_keep_their_own_code_only_when_about_history() {
    let failure = |code| DomainError {
        code,
        message: "m".into(),
        retryable: true,
        details: None,
        cause_id: None,
    };
    let e = history_api_error(ErrorCode::CodexHistoryReadFailed, failure(ErrorCode::CodexHistoryIncomplete));
    assert_eq!(e.code, ErrorCode::CodexHistoryIncomplete);
    let e = history_api_error(ErrorCode::CodexHistoryReadFailed, failure(ErrorCode::ProviderFailed));
    assert_eq!(e.code, ErrorCode::CodexHistoryReadFailed);
    assert_eq!(e.message, "m");
    assert!(e.retryable);
}

fn snapshot(id: &str, turns: Vec<CodexTurn>) -> CodexSnapshot {
    CodexSnapshot {
        id: id.into(),
        session_id: format!("session-{id}"),
        cwd: "/tmp/project".into(),
        forked_from_id: None,
        created_at: 1,
        updated_at: 12,
        writer_confirmed: false,
        turns,
    }
}

#[test]
fn repeated_import_reuses_the_session_and_stored_messages() {
    let first = materialize_thread(
        &snapshot("thread", vec![turn("turn", vec![user("user", "hello")])]),
        "builtin-codex",
        "project",
        "agent",
        &vec![],
        &vec![],
        &vec![],
    )
    .unwrap();
    assert!(!first.existing_session);
    assert_eq!(first.messages.len(), 2);
    assert_eq!(first.head_message_id, first.messages[1].planned.id);
    let stored: Vec<String> = first.messages.iter().map(|m| m.planned.id.clone()).collect();
    let bound = vec![ThreadBinding {
        session_id: first.session_id.clone(),
        project_id: "project".into(),
        agent_id: "agent".into(),
        provider_id: "builtin-codex".into(),
        thread_id: "thread".into(),
        lineage_id: first.lineage_id.clone(),
        relationship: first.relationship,
        history_full: true,
        turns: vec![],
    }];
    let second = materialize_thread(
        &snapshot("thread", vec![turn("turn", vec![user("user", "hello")])]),
        "builtin-codex",
        "project",
        "agent",
        &bound,
        &vec![],
        &stored,
    )
    .unwrap();
    assert!(second.existing_session);
    assert_eq!(second.session_id, first.session_id);
    assert_eq!(second.head_message_id, first.head_message_id);
    assert!(second.messages.is_empty());
}

#[test]
fn import_keeps_the_last_complete_turn_before_an_incomplete_tail() {
    let mut active = turn("active", vec![user("pending", "not published")]);
    active.status = "inProgress".into();
    active.completed_at = None;
    let m = materialize_thread(
        &snapshot("thread", vec![turn("complete", vec![user("user", "published")]), active]),
        "builtin-codex",
        "project",
        "agent",
        &vec![],
        &vec![],
        &vec![],
    )
    .unwrap();
    assert_eq!(m.completeness, Completeness::Partial);
    assert_eq!(m.messages.len(), 2);
    match &m.messages[1].parts[..] {
        [SubMessage::Text { text }] => assert_eq!(text, "published"),
        other => panic!("unexpected parts {other:?}"),
    }
}

#[test]
fn import_refuses_an_unusable_snapshot() {
    let mut bad = snapshot("thread", vec![]);
    bad.cwd = "relative".into();
    let e = materialize_thread(&bad, "builtin-codex", "project", "agent", &vec![], &vec![], &vec![]).unwrap_err();
    assert_eq!(e.code, ErrorCode::CodexHistoryReadFailed);
}
