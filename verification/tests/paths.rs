use ait_application::errors::ErrorCode;
use ait_application::paths::{
    confine_by_facts, lexical_absolute_path, permission_path_target, PathFacts,
};

fn facts(root: &str, existing: &str) -> Result<PathFacts, ()> {
    Ok(PathFacts {
        canonical_root: Some(root.into()),
        canonical_existing: Some(existing.into()),
    })
}

#[test]
fn lexical_absolute_paths_resolve_dots() {
    assert_eq!(
        lexical_absolute_path("/a/./b/../c").unwrap(),
        vec!["a".to_string(), "c".to_string()]
    );
    assert_eq!(lexical_absolute_path("/").unwrap(), Vec::<String>::new());
    let relative = lexical_absolute_path("a/b").unwrap_err();
    assert_eq!(relative.code, ErrorCode::InvalidConfiguration);
    assert_eq!(relative.message, "filesystem grant escapes the Project boundary");
    assert!(lexical_absolute_path("/..").is_err());
}

#[test]
fn approvals_lexical_escape_is_rejected_before_facts_and_canonical_escape_after_facts() {
    let root = "/alias/project";
    for path in ["../escape", "symlink/../escape", "/elsewhere/file"] {
        let refused = permission_path_target(path, root).unwrap_err();
        assert_eq!(refused.message, "filesystem grant escapes the Project boundary");
    }
    let (root_parts, target) = permission_path_target("new/file", root).unwrap();
    assert_eq!(root_parts, vec!["alias".to_string(), "project".to_string()]);
    assert_eq!(
        target,
        vec![
            "alias".to_string(),
            "project".to_string(),
            "new".to_string(),
            "file".to_string()
        ]
    );
    assert!(confine_by_facts(facts("/alias/project", "/alias/project/new")).is_ok());
    assert!(confine_by_facts(facts("/alias/project", "/outside")).is_err());
    assert!(confine_by_facts(Err(())).is_err());
}

#[test]
fn facts_must_be_absolute_text() {
    assert!(confine_by_facts(facts("alias/project", "alias/project/x")).is_err());
    assert!(confine_by_facts(Ok(PathFacts {
        canonical_root: None,
        canonical_existing: Some("/x".into()),
    }))
    .is_err());
    assert!(confine_by_facts(facts("/project", "/project")).is_ok());
    assert!(confine_by_facts(facts("/project", "/projectile")).is_err());
}

#[test]
fn an_absolute_permission_path_inside_the_root_is_accepted() {
    let (_, target) = permission_path_target("/alias/project/./src", "/alias/project").unwrap();
    assert_eq!(target.len(), 3);
    assert!(permission_path_target("x", "relative/root").is_err());
}

/// The lexical stage, then the facts a workspace reports for the target.
fn check(path: &str, facts: Result<PathFacts, ()>) -> bool {
    match permission_path_target(path, "/alias/project") {
        Ok(_) => confine_by_facts(facts).is_ok(),
        Err(_) => false,
    }
}

#[test]
fn fact_tests_lexical_escape_is_rejected_before_facts_and_canonical_escape_after_facts() {
    let mut facts_read = 0;
    for path in ["../escape", "symlink/../escape", "/elsewhere/file"] {
        let lexical = permission_path_target(path, "/alias/project");
        assert!(lexical.is_err());
        if lexical.is_ok() {
            facts_read += 1;
        }
    }
    assert_eq!(facts_read, 0);
    assert!(check("new/file", facts("/alias/project", "/alias/project/new")));
    assert!(!check("new/file", facts("/alias/project", "/outside")));
    assert!(!check("dangling/file", Err(())));
}
