use ait_application::catalog::{builtin_providers, AgentConfiguration, AgentRecord};
use ait_application::conversation::{GitBaseline, RunCatalog};
use ait_application::crons::{set_cron_enabled, trigger_cron, CronRecord, CronTrigger};
use ait_application::errors::ErrorCode;
use ait_application::permissions::PermissionPolicyLimits;
use ait_application::runs::WorkingSet;
use ait_application::settings::{SettingValue, SettingsDocument};

fn catalog() -> RunCatalog {
    RunCatalog {
        settings: SettingsDocument {
            entries: vec![
                ("permissions.sandbox".into(), SettingValue::Text("read_only".into())),
                ("permissions.approval".into(), SettingValue::Text("on_request".into())),
            ],
        },
        agents: vec![AgentRecord {
            id: "agent".into(),
            name: "Nightly".into(),
            config: AgentConfiguration {
                provider_id: "builtin-codex".into(),
                model: "gpt-5.6-sol".into(),
                reasoning_effort: None,
            },
            owner_session_id: None,
            revision: 2,
            enabled: true,
        }],
        providers: builtin_providers(),
        provider_credentials: Vec::new(),
    }
}

fn crons(enabled: bool) -> Vec<CronRecord> {
    vec![CronRecord {
        id: "nightly".into(),
        name: "Nightly".into(),
        project_id: "p".into(),
        base_message_id: "root".into(),
        agent_id: "agent".into(),
        schedule: "0 3 * * *".into(),
        timezone: "UTC".into(),
        enabled,
    }]
}

fn empty() -> WorkingSet {
    WorkingSet {
        projects: Vec::new(),
        sessions: Vec::new(),
        runs: Vec::new(),
        journals: Vec::new(),
    }
}

#[test]
fn each_occurrence_queues_one_run() {
    let mut state = empty();
    let mut credentials = Vec::new();
    let baseline = GitBaseline {
        commit: "c".repeat(40),
        index_tree: "t".repeat(40),
    };
    let first = trigger_cron(&mut state, &mut credentials, &catalog(), &crons(true), "nightly", 1000, Some(&baseline), PermissionPolicyLimits::default())
        .unwrap();
    assert_eq!(first, CronTrigger::Queued(0));
    let run = &state.runs[0];
    assert_eq!(run.trigger, "cron");
    assert_eq!(run.cron_id.as_deref(), Some("nightly"));
    assert_eq!(run.scheduled_at, Some(1000));
    assert!(run.session_id.is_none());
    assert_eq!(run.base_message_id, "root");
    assert_eq!(run.status, "queued");
    let again = trigger_cron(&mut state, &mut credentials, &catalog(), &crons(true), "nightly", 1000, None, PermissionPolicyLimits::default())
        .unwrap();
    assert_eq!(again, CronTrigger::Existing(0));
    assert_eq!(state.runs.len(), 1);
    let next = trigger_cron(&mut state, &mut credentials, &catalog(), &crons(true), "nightly", 2000, None, PermissionPolicyLimits::default())
        .unwrap_err();
    assert_eq!(next.code, ErrorCode::ProjectGitHeadUnavailable);
    assert!(next.retryable);
    let disabled = trigger_cron(&mut state, &mut credentials, &catalog(), &crons(false), "nightly", 3000, Some(&baseline), PermissionPolicyLimits::default())
        .unwrap_err();
    assert_eq!(disabled.message, "enabled cron not found");
}

#[test]
fn crons_can_be_switched_off_and_on() {
    let mut list = crons(true);
    assert_eq!(set_cron_enabled(&mut list, "nightly", false).unwrap(), 0);
    assert!(!list[0].enabled);
    assert_eq!(set_cron_enabled(&mut list, "other", true).unwrap_err().message, "cron not found");
}
