use ait_application::errors::ErrorCode;
use ait_application::settings::{
    default_settings_revision, reset_settings, save_settings, validate_settings, SettingDefinition,
    SettingKind, SettingValue, SettingsDocument, SettingsState,
};

fn schema() -> Vec<SettingDefinition> {
    vec![
        SettingDefinition {
            id: "runtime.recovery".into(),
            kind: SettingKind::Select {
                options: vec!["resume_safe".into(), "ask".into(), "fail".into()],
            },
        },
        SettingDefinition {
            id: "runtime.max_runs".into(),
            kind: SettingKind::Number { min: 1, max: 8 },
        },
        SettingDefinition {
            id: "ui.compact".into(),
            kind: SettingKind::Boolean,
        },
    ]
}

fn document(recovery: &str, runs: i64) -> SettingsDocument {
    SettingsDocument {
        entries: vec![
            ("runtime.recovery".into(), SettingValue::Text(recovery.into())),
            ("runtime.max_runs".into(), SettingValue::Integer(runs)),
            ("ui.compact".into(), SettingValue::Boolean(true)),
        ],
    }
}

#[test]
fn the_first_revision_is_one() {
    assert_eq!(default_settings_revision(), 1);
}

#[test]
fn documents_must_match_the_schema() {
    assert!(validate_settings(&document("ask", 4), &schema()).is_ok());
    assert_eq!(
        validate_settings(&document("never", 4), &schema()).unwrap_err().message,
        "invalid value for setting runtime.recovery"
    );
    assert_eq!(
        validate_settings(&document("ask", 9), &schema()).unwrap_err().message,
        "invalid value for setting runtime.max_runs"
    );
    let mut missing = document("ask", 4);
    missing.entries.pop();
    assert_eq!(
        validate_settings(&missing, &schema()).unwrap_err().message,
        "missing setting ui.compact"
    );
    let mut unknown = document("ask", 4);
    unknown.entries.push(("other".into(), SettingValue::Other));
    let refused = validate_settings(&unknown, &schema()).unwrap_err();
    assert_eq!(refused.code, ErrorCode::InvalidConfiguration);
    assert_eq!(refused.message, "settings contain an unknown key");
}

#[test]
fn saves_compare_and_swap_on_the_revision() {
    let mut state = SettingsState {
        document: document("ask", 4),
        revision: default_settings_revision(),
    };
    save_settings(&mut state, 1, document("fail", 2), &schema()).unwrap();
    assert_eq!(state.revision, 2);
    let stale = save_settings(&mut state, 1, document("ask", 3), &schema()).unwrap_err();
    assert_eq!(stale.message, "settings changed in another client; reload and try again");
    assert_eq!(state.revision, 2);
    let invalid = save_settings(&mut state, 2, document("bad", 3), &schema()).unwrap_err();
    assert_eq!(invalid.message, "invalid value for setting runtime.recovery");
    assert_eq!(state.revision, 2);
    reset_settings(&mut state, document("ask", 1));
    assert_eq!(state.revision, 3);
}
