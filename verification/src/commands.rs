//! The commands that change the control plane's state, and the dispatch
//! that applies one to the whole state.
use vstd::prelude::*;
use crate::agents::{
    own_agent_revisions_below_max, session_agent_set, session_config_set, set_session_agent,
    set_session_config,
};
use crate::archive::ProjectExport;
use crate::branching::{
    create_session, derive_outcome, derive_session, fork_outcome, fork_session, session_creation,
    ForkSessionInput,
};
use crate::catalog::{
    config_check, first_enabled_agent, has_enabled_agent, require_agent, validate_config,
    agent_registered, agent_updated, register_agent, revisions_below_max, update_agent,
    AgentConfiguration,
};
use crate::conversation::{message_sent, send_message, GitBaseline, MessageRecord, RunCatalog};
use crate::crons::{
    find_enabled_cron, first_enabled_cron, occurrence_run, cron_enabled_set, cron_triggered, set_cron_enabled, trigger_cron, CronRecord, CronTrigger,
};
use crate::errors::{control_error, is_error, matches_outcome, ControlError, ErrorCode, Outcome};
use crate::permissions::{effective_permission_profile, effective_profile, AgentMode, PermissionPolicyLimits};
use crate::resolution::{find_project, first_project, has_project};
use crate::settings::setting_text;
use crate::sessions::{find_session, first_session};
use crate::json::opt_view;
use crate::text::str_equals;
use crate::projects::{default_agent_set, project_registered, register_project, set_project_default_agent};
use crate::runs::{cancel_run, held_versions_below_max, run_cancelled, RunRecord, WorkingSet};
use crate::sessions::{
    rename_session, session_renamed, session_titled, session_versions_below_max, set_session_title,
};
use crate::settings::{
    next_revision, reset_settings, save_settings, settings_saved, SettingDefinition,
    SettingsDocument, SettingsState,
};
use crate::transfer::{import_project, project_imported};
use crate::events::{event_of, event_views, push_event, EventKind, PendingEvent};

verus! {

/// The whole state the control plane's commands read and change.
#[derive(Debug)]
pub struct ControlState {
    /// Projects, Sessions, Runs and Run journals.
    pub work: WorkingSet,
    pub messages: Vec<MessageRecord>,
    /// The provider credential bound to each Run, by Run id.
    pub run_credentials: Vec<(String, String)>,
    /// Settings, Agents, providers and stored provider credentials.
    pub catalog: RunCatalog,
    pub settings_revision: u64,
    pub crons: Vec<CronRecord>,
}

/// A command that changes the control plane's state.
#[derive(Debug)]
pub enum Command {
    RegisterProject { id: String, name: String, workdir: String, repo_url: Option<String> },
    SetProjectDefaultAgent { project_id: String, agent_id: String },
    RegisterAgent { id: String, name: String, config: AgentConfiguration },
    UpdateAgent { id: String, name: String, config: AgentConfiguration },
    SetSessionConfig { session_id: String, config: AgentConfiguration },
    CreateSession { id: String, project_id: String, agent_id: String, at_message_id: Option<String> },
    SetSessionAgent { session_id: String, agent_id: String },
    RenameSession { session_id: String, name: String },
    SetSessionTitle { session_id: String, title: String },
    SendMessage { session_id: String, text: String },
    ForkSession { id: String, project_id: String, agent_id: String, at_message_id: String, text: String },
    DeriveSession {
        id: String,
        project_id: String,
        source_session_id: String,
        agent_id: String,
        at_message_id: String,
        text: String,
    },
    CancelRun { run_id: String },
    SetCronEnabled { cron_id: String, enabled: bool },
    TriggerCron { cron_id: String, scheduled_at: i64 },
    ImportProject { archive: ProjectExport, workdir: String },
    SaveSettings { expected_revision: u64, values: SettingsDocument },
    ResetSettings,
}

/// The canonical Git work tree the host found for a command's directory,
/// and its HEAD commit.
#[derive(Debug)]
pub struct GitRoot {
    pub workdir: String,
    pub head: String,
}

/// What an applied command produced: the position of the record it made or
/// changed, the outcome of a Cron trigger, or new settings.
#[derive(Clone, Copy, Debug, PartialEq, Eq, Structural)]
pub enum Applied {
    Project(usize),
    Agent(usize),
    Session(usize),
    Run(usize),
    Cron(usize),
    CronTriggered(CronTrigger),
    Settings,
}

/// A result naming a Project, as the callee's result.
pub open spec fn as_project(r: Result<Applied, ControlError>) -> Option<Result<usize, ControlError>> {
    match r {
        Ok(Applied::Project(k)) => Some(Ok(k)),
        Err(e) => Some(Err(e)),
        _ => None,
    }
}

/// A result naming an Agent, as the callee's result.
pub open spec fn as_agent(r: Result<Applied, ControlError>) -> Option<Result<usize, ControlError>> {
    match r {
        Ok(Applied::Agent(k)) => Some(Ok(k)),
        Err(e) => Some(Err(e)),
        _ => None,
    }
}

/// A result naming a Session, as the callee's result.
pub open spec fn as_session(r: Result<Applied, ControlError>) -> Option<Result<usize, ControlError>> {
    match r {
        Ok(Applied::Session(k)) => Some(Ok(k)),
        Err(e) => Some(Err(e)),
        _ => None,
    }
}

/// A result naming a Run, as the callee's result.
pub open spec fn as_run(r: Result<Applied, ControlError>) -> Option<Result<usize, ControlError>> {
    match r {
        Ok(Applied::Run(k)) => Some(Ok(k)),
        Err(e) => Some(Err(e)),
        _ => None,
    }
}

/// A result naming a Cron, as the callee's result.
pub open spec fn as_cron(r: Result<Applied, ControlError>) -> Option<Result<usize, ControlError>> {
    match r {
        Ok(Applied::Cron(k)) => Some(Ok(k)),
        Err(e) => Some(Err(e)),
        _ => None,
    }
}

/// A result of a Cron trigger, as the callee's result.
pub open spec fn as_trigger(r: Result<Applied, ControlError>) -> Option<Result<CronTrigger, ControlError>> {
    match r {
        Ok(Applied::CronTriggered(t)) => Some(Ok(t)),
        Err(e) => Some(Err(e)),
        _ => None,
    }
}

/// A result of a settings change, as the callee's result.
pub open spec fn as_settings(r: Result<Applied, ControlError>) -> Option<Result<(), ControlError>> {
    match r {
        Ok(Applied::Settings) => Some(Ok(())),
        Err(e) => Some(Err(e)),
        _ => None,
    }
}

/// The parts of the state a command leaves as they were: each flag set
/// keeps its part.
pub open spec fn keeps(
    old: ControlState,
    new: ControlState,
    projects: bool,
    sessions: bool,
    runs: bool,
    journals: bool,
    messages: bool,
    run_credentials: bool,
    agents: bool,
    providers: bool,
    settings: bool,
    crons: bool,
) -> bool {
    &&& projects ==> new.work.projects == old.work.projects
    &&& sessions ==> new.work.sessions == old.work.sessions
    &&& runs ==> new.work.runs == old.work.runs
    &&& journals ==> new.work.journals == old.work.journals
    &&& messages ==> new.messages == old.messages
    &&& run_credentials ==> new.run_credentials == old.run_credentials
    &&& agents ==> new.catalog.agents == old.catalog.agents
    &&& providers ==> new.catalog.providers == old.catalog.providers
    &&& new.catalog.provider_credentials == old.catalog.provider_credentials
    &&& settings ==> new.catalog.settings == old.catalog.settings && new.settings_revision
        == old.settings_revision
    &&& crons ==> new.crons == old.crons
}

/// The settings document with its revision.
pub open spec fn settings_of(state: ControlState) -> SettingsState {
    SettingsState { document: state.catalog.settings, revision: state.settings_revision }
}

/// The error of a user Message sent without a Git snapshot.
pub open spec fn missing_baseline_error() -> (ErrorCode, Seq<char>, bool) {
    (ErrorCode::ProjectGitHeadUnavailable, "Git HEAD/index snapshot is missing for user message"@, false)
}

/// A command that needs a user Git snapshot was refused for lacking one.
pub open spec fn refused_without_baseline(old: ControlState, new: ControlState, result: Result<Applied, ControlError>) -> bool {
    &&& new == old
    &&& result matches Err(e) && is_error(
        e,
        missing_baseline_error().0,
        missing_baseline_error().1,
        missing_baseline_error().2,
    )
}

/// What applying `command` to `old` does, giving `new` and `result`: the
/// outcome its own function states (named in each arm), with every part of
/// the state it does not touch kept. Registration and import work on the Git
/// work tree and HEAD the host found (`git_root`); user Messages need the
/// user's Git snapshot (`git_baseline`).
pub open spec fn command_applied(
    old: ControlState,
    new: ControlState,
    command: Command,
    git_baseline: Option<&GitBaseline>,
    git_root: Option<GitRoot>,
    limits: PermissionPolicyLimits,
    derive_source_locked: bool,
    schema: &Vec<SettingDefinition>,
    defaults: SettingsDocument,
    result: Result<Applied, ControlError>,
) -> bool {
    match command {
        Command::RegisterProject { id, name, workdir: _, repo_url } => {
            &&& git_root matches Some(root)
            &&& as_project(result) matches Some(r)
            &&& project_registered(
                old.work.projects,
                new.work.projects,
                old.messages,
                new.messages,
                id,
                name,
                git_root->Some_0.workdir,
                git_root->Some_0.head,
                repo_url,
                r,
            )
            &&& keeps(old, new, false, true, true, true, false, true, true, true, true, true)
        },
        Command::SetProjectDefaultAgent { project_id, agent_id } => {
            &&& as_project(result) matches Some(r)
            &&& default_agent_set(
                old.work.projects,
                new.work.projects,
                &old.catalog.agents,
                project_id@,
                agent_id@,
                r,
            )
            &&& keeps(old, new, false, true, true, true, true, true, true, true, true, true)
        },
        Command::RegisterAgent { id, name, config } => {
            &&& as_agent(result) matches Some(r)
            &&& agent_registered(old.catalog.agents, new.catalog.agents, &old.catalog.providers, id, name, config, r)
            &&& keeps(old, new, true, true, true, true, true, true, false, true, true, true)
        },
        Command::UpdateAgent { id, name, config } => {
            &&& as_agent(result) matches Some(r)
            &&& agent_updated(old.catalog.agents, new.catalog.agents, &old.catalog.providers, id@, name, config, r)
            &&& keeps(old, new, true, true, true, true, true, true, false, true, true, true)
        },
        Command::SetSessionConfig { session_id, config } => {
            &&& as_session(result) matches Some(r)
            &&& session_config_set(
                old.work.sessions,
                new.work.sessions,
                old.catalog.agents,
                new.catalog.agents,
                &old.catalog.providers,
                session_id@,
                config,
                r,
            )
            &&& keeps(old, new, true, false, true, true, true, true, false, true, true, true)
        },
        Command::CreateSession { id, project_id, agent_id, at_message_id } => {
            &&& as_session(result) matches Some(r)
            &&& session_creation(
                old.work.sessions,
                new.work.sessions,
                &old.work.projects,
                old.catalog.agents,
                new.catalog.agents,
                &old.messages,
                id,
                project_id,
                agent_id@,
                at_message_id,
                r,
            )
            &&& keeps(old, new, true, false, true, true, true, true, false, true, true, true)
        },
        Command::SetSessionAgent { session_id, agent_id } => {
            &&& as_session(result) matches Some(r)
            &&& session_agent_set(
                old.work.sessions,
                new.work.sessions,
                old.catalog.agents,
                new.catalog.agents,
                session_id@,
                agent_id@,
                r,
            )
            &&& keeps(old, new, true, false, true, true, true, true, false, true, true, true)
        },
        Command::RenameSession { session_id, name } => {
            &&& as_session(result) matches Some(r)
            &&& session_renamed(old.work.sessions, new.work.sessions, session_id@, name@, r)
            &&& keeps(old, new, true, false, true, true, true, true, true, true, true, true)
        },
        Command::SetSessionTitle { session_id, title } => {
            &&& as_session(result) matches Some(r)
            &&& session_titled(old.work.sessions, new.work.sessions, session_id@, title@, r)
            &&& keeps(old, new, true, false, true, true, true, true, true, true, true, true)
        },
        Command::SendMessage { session_id, text } => match git_baseline {
            None => refused_without_baseline(old, new, result),
            Some(baseline) => {
                &&& as_run(result) matches Some(r)
                &&& message_sent(
                    old.work,
                    new.work,
                    old.messages@,
                    new.messages@,
                    old.run_credentials@,
                    new.run_credentials@,
                    old.catalog,
                    session_id@,
                    text@,
                    *baseline,
                    limits,
                    r,
                )
                &&& new.catalog == old.catalog
                &&& keeps(old, new, false, false, false, false, false, false, true, true, true, true)
            },
        },
        Command::ForkSession { id, project_id, agent_id, at_message_id, text } => match git_baseline {
            None => refused_without_baseline(old, new, result),
            Some(baseline) => {
                &&& as_run(result) matches Some(r)
                &&& fork_outcome(
                    old.work,
                    new.work,
                    old.messages@,
                    new.messages@,
                    old.run_credentials@,
                    new.run_credentials@,
                    old.catalog,
                    new.catalog,
                    ForkSessionInput { id, project_id, agent_id, at_message_id, text },
                    *baseline,
                    limits,
                    r,
                )
                &&& keeps(old, new, false, false, false, false, false, false, false, true, true, true)
            },
        },
        Command::DeriveSession { id, project_id, source_session_id, agent_id, at_message_id, text } => match git_baseline {
            None => refused_without_baseline(old, new, result),
            Some(baseline) => {
                &&& as_run(result) matches Some(r)
                &&& derive_outcome(
                    old.work,
                    new.work,
                    old.messages,
                    new.messages,
                    old.run_credentials,
                    new.run_credentials,
                    old.catalog,
                    new.catalog,
                    ForkSessionInput { id, project_id, agent_id, at_message_id, text },
                    source_session_id@,
                    derive_source_locked,
                    baseline,
                    limits,
                    r,
                )
                &&& keeps(old, new, false, false, false, false, false, false, false, true, true, true)
            },
        },
        Command::CancelRun { run_id } => {
            &&& as_run(result) matches Some(r)
            &&& run_cancelled(old.work, new.work, run_id@, r)
            &&& keeps(old, new, false, false, false, false, true, true, true, true, true, true)
        },
        Command::SetCronEnabled { cron_id, enabled } => {
            &&& as_cron(result) matches Some(r)
            &&& cron_enabled_set(old.crons, new.crons, cron_id@, enabled, r)
            &&& keeps(old, new, true, true, true, true, true, true, true, true, true, false)
        },
        Command::TriggerCron { cron_id, scheduled_at } => {
            &&& as_trigger(result) matches Some(r)
            &&& cron_triggered(
                old.work,
                new.work,
                old.run_credentials,
                new.run_credentials,
                &old.catalog,
                &old.crons,
                cron_id@,
                scheduled_at,
                git_baseline,
                limits,
                r,
            )
            &&& keeps(old, new, false, false, false, false, true, false, true, true, true, true)
        },
        Command::ImportProject { archive, workdir: _ } => {
            &&& git_root matches Some(root)
            &&& as_project(result) matches Some(r)
            &&& project_imported(
                old.work,
                new.work,
                old.messages,
                new.messages,
                old.catalog.agents,
                new.catalog.agents,
                old.catalog.providers,
                new.catalog.providers,
                archive,
                git_root->Some_0.workdir,
                git_root->Some_0.head,
                r,
            )
            &&& keeps(old, new, false, false, false, false, false, true, false, false, true, true)
        },
        Command::SaveSettings { expected_revision, values } => {
            &&& as_settings(result) matches Some(r)
            &&& settings_saved(settings_of(old), settings_of(new), expected_revision, values, schema, r)
            &&& keeps(old, new, true, true, true, true, true, true, true, true, false, true)
        },
        Command::ResetSettings => {
            &&& result == Result::<Applied, ControlError>::Ok(Applied::Settings)
            &&& new.catalog.settings == defaults
            &&& new.settings_revision == next_revision(old.settings_revision)
            &&& keeps(old, new, true, true, true, true, true, true, true, true, false, true)
        },
    }
}

/// The refusal of a user Message without the user's Git snapshot.
fn missing_baseline() -> (e: ControlError)
    ensures
        is_error(e, missing_baseline_error().0, missing_baseline_error().1, missing_baseline_error().2),
{
    control_error(
        ErrorCode::ProjectGitHeadUnavailable,
        "Git HEAD/index snapshot is missing for user message",
        false,
    )
}

/// Applies one command to the state (see `command_applied`).
fn dispatch_command(
    state: &mut ControlState,
    command: Command,
    git_baseline: Option<&GitBaseline>,
    git_root: Option<GitRoot>,
    limits: PermissionPolicyLimits,
    derive_source_locked: bool,
    schema: &Vec<SettingDefinition>,
    defaults: SettingsDocument,
    outbox: &mut Vec<PendingEvent>,
) -> (result: Result<Applied, ControlError>)
    requires
        command matches Command::SendMessage { session_id, .. } ==> session_versions_below_max(
            old(state).work.sessions@,
            session_id@,
        ),
        command matches Command::DeriveSession { source_session_id, .. } ==> session_versions_below_max(
            old(state).work.sessions@,
            source_session_id@,
        ),
        command is CancelRun ==> held_versions_below_max(old(state).work.sessions@),
        command matches Command::UpdateAgent { id, .. } ==> revisions_below_max(old(state).catalog.agents@, id@),
        command matches Command::SetSessionConfig { session_id, .. } ==> session_versions_below_max(
            old(state).work.sessions@,
            session_id@,
        ) && own_agent_revisions_below_max(old(state).catalog.agents@, session_id@),
        (command is RegisterProject || command is ImportProject) ==> git_root is Some,
    ensures
        match command {
            Command::CancelRun { run_id } => event_views(final(outbox)@) == event_views(old(outbox)@)
                + if result is Ok {
                seq![event_of(EventKind::RunUpdated, Some(run_id@))]
            } else {
                Seq::empty()
            },
            _ => final(outbox)@ == old(outbox)@,
        },
        command_applied(
            *old(state),
            *final(state),
            command,
            git_baseline,
            git_root,
            limits,
            derive_source_locked,
            schema,
            defaults,
            result,
        ),
{
    let ghost old_root = git_root;
    match command {
        Command::RegisterProject { id, name, workdir: _, repo_url } => {
            let root = match git_root {
                Some(root) => root,
                None => {
                    proof {
                        assert(false);
                    }
                    return Err(missing_baseline());
                },
            };
            match register_project(
                &mut state.work.projects,
                &mut state.messages,
                id,
                name,
                root.workdir,
                root.head,
                repo_url,
            ) {
                Ok(k) => Ok(Applied::Project(k)),
                Err(e) => Err(e),
            }
        },
        Command::SetProjectDefaultAgent { project_id, agent_id } => {
            match set_project_default_agent(
                &mut state.work.projects,
                &state.catalog.agents,
                project_id.as_str(),
                agent_id.as_str(),
            ) {
                Ok(k) => Ok(Applied::Project(k)),
                Err(e) => Err(e),
            }
        },
        Command::RegisterAgent { id, name, config } => {
            match register_agent(&mut state.catalog.agents, &state.catalog.providers, id, name, config) {
                Ok(k) => Ok(Applied::Agent(k)),
                Err(e) => Err(e),
            }
        },
        Command::UpdateAgent { id, name, config } => {
            match update_agent(&mut state.catalog.agents, &state.catalog.providers, id.as_str(), name, config) {
                Ok(k) => Ok(Applied::Agent(k)),
                Err(e) => Err(e),
            }
        },
        Command::SetSessionConfig { session_id, config } => {
            match set_session_config(
                &mut state.work.sessions,
                &mut state.catalog.agents,
                &state.catalog.providers,
                session_id.as_str(),
                config,
            ) {
                Ok(k) => Ok(Applied::Session(k)),
                Err(e) => Err(e),
            }
        },
        Command::CreateSession { id, project_id, agent_id, at_message_id } => {
            match create_session(
                &mut state.work.sessions,
                &state.work.projects,
                &mut state.catalog.agents,
                &state.messages,
                id,
                project_id,
                agent_id.as_str(),
                at_message_id,
            ) {
                Ok(k) => Ok(Applied::Session(k)),
                Err(e) => Err(e),
            }
        },
        Command::SetSessionAgent { session_id, agent_id } => {
            match set_session_agent(
                &mut state.work.sessions,
                &mut state.catalog.agents,
                session_id.as_str(),
                agent_id.as_str(),
            ) {
                Ok(k) => Ok(Applied::Session(k)),
                Err(e) => Err(e),
            }
        },
        Command::RenameSession { session_id, name } => {
            match rename_session(&mut state.work.sessions, session_id.as_str(), name.as_str()) {
                Ok(k) => Ok(Applied::Session(k)),
                Err(e) => Err(e),
            }
        },
        Command::SetSessionTitle { session_id, title } => {
            match set_session_title(&mut state.work.sessions, session_id.as_str(), title.as_str()) {
                Ok(k) => Ok(Applied::Session(k)),
                Err(e) => Err(e),
            }
        },
        Command::SendMessage { session_id, text } => {
            let baseline = match git_baseline {
                Some(b) => b,
                None => return Err(missing_baseline()),
            };
            match send_message(
                &mut state.work,
                &mut state.messages,
                &mut state.run_credentials,
                &state.catalog,
                session_id,
                text,
                baseline,
                limits,
            ) {
                Ok(k) => Ok(Applied::Run(k)),
                Err(e) => Err(e),
            }
        },
        Command::ForkSession { id, project_id, agent_id, at_message_id, text } => {
            let baseline = match git_baseline {
                Some(b) => b,
                None => return Err(missing_baseline()),
            };
            match fork_session(
                &mut state.work,
                &mut state.messages,
                &mut state.run_credentials,
                &mut state.catalog,
                ForkSessionInput { id, project_id, agent_id, at_message_id, text },
                baseline,
                limits,
            ) {
                Ok(k) => Ok(Applied::Run(k)),
                Err(e) => Err(e),
            }
        },
        Command::DeriveSession { id, project_id, source_session_id, agent_id, at_message_id, text } => {
            let baseline = match git_baseline {
                Some(b) => b,
                None => return Err(missing_baseline()),
            };
            match derive_session(
                &mut state.work,
                &mut state.messages,
                &mut state.run_credentials,
                &mut state.catalog,
                ForkSessionInput { id, project_id, agent_id, at_message_id, text },
                source_session_id.as_str(),
                derive_source_locked,
                baseline,
                limits,
            ) {
                Ok(k) => Ok(Applied::Run(k)),
                Err(e) => Err(e),
            }
        },
        Command::CancelRun { run_id } => {
            match cancel_run(&mut state.work, run_id.as_str(), outbox) {
                Ok(k) => Ok(Applied::Run(k)),
                Err(e) => Err(e),
            }
        },
        Command::SetCronEnabled { cron_id, enabled } => {
            match set_cron_enabled(&mut state.crons, cron_id.as_str(), enabled) {
                Ok(k) => Ok(Applied::Cron(k)),
                Err(e) => Err(e),
            }
        },
        Command::TriggerCron { cron_id, scheduled_at } => {
            match trigger_cron(
                &mut state.work,
                &mut state.run_credentials,
                &state.catalog,
                &state.crons,
                cron_id.as_str(),
                scheduled_at,
                git_baseline,
                limits,
            ) {
                Ok(t) => Ok(Applied::CronTriggered(t)),
                Err(e) => Err(e),
            }
        },
        Command::ImportProject { archive, workdir: _ } => {
            let root = match git_root {
                Some(root) => root,
                None => {
                    proof {
                        assert(false);
                    }
                    return Err(missing_baseline());
                },
            };
            match import_project(
                &mut state.work,
                &mut state.messages,
                &mut state.catalog.agents,
                &mut state.catalog.providers,
                archive,
                root.workdir,
                root.head,
            ) {
                Ok(k) => Ok(Applied::Project(k)),
                Err(e) => Err(e),
            }
        },
        Command::SaveSettings { expected_revision, values } => {
            let mut document = SettingsDocument { entries: Vec::new() };
            std::mem::swap(&mut document, &mut state.catalog.settings);
            let mut settings = SettingsState { document, revision: state.settings_revision };
            let saved = save_settings(&mut settings, expected_revision, values, schema);
            let SettingsState { document, revision } = settings;
            state.catalog.settings = document;
            state.settings_revision = revision;
            match saved {
                Ok(()) => Ok(Applied::Settings),
                Err(e) => Err(e),
            }
        },
        Command::ResetSettings => {
            let mut document = SettingsDocument { entries: Vec::new() };
            std::mem::swap(&mut document, &mut state.catalog.settings);
            let mut settings = SettingsState { document, revision: state.settings_revision };
            reset_settings(&mut settings, defaults);
            let SettingsState { document, revision } = settings;
            state.catalog.settings = document;
            state.settings_revision = revision;
            Ok(Applied::Settings)
        },
    }
}

/// The Projects and Agents (as id pairs) whose work a command starts, or
/// `None` when a Cron occurrence already has its Run: the Session's for a
/// user Message, the new Session's for a fork, the new and the source
/// Session's for a derivation, and the enabled Cron's for a trigger.
pub open spec fn write_targets(state: ControlState, command: Command) -> Outcome<
    Option<Seq<(Seq<char>, Seq<char>)>>,
> {
    let sessions = state.work.sessions@;
    match command {
        Command::SendMessage { session_id, .. } => if !(exists|c: int| first_session(sessions, session_id@, c)) {
            Err((ErrorCode::SessionNotFound, "session not found"@, false))
        } else {
            let s = sessions[choose|c: int| first_session(sessions, session_id@, c)];
            Ok(Some(seq![(s.project_id@, s.agent_id@)]))
        },
        Command::ForkSession { project_id, agent_id, .. } => Ok(Some(seq![(project_id@, agent_id@)])),
        Command::DeriveSession { project_id, source_session_id, agent_id, .. } => if !(exists|c: int|
            first_session(sessions, source_session_id@, c)) {
            Err((ErrorCode::SessionNotFound, "session not found"@, false))
        } else {
            let s = sessions[choose|c: int| first_session(sessions, source_session_id@, c)];
            Ok(Some(seq![(project_id@, agent_id@), (s.project_id@, s.agent_id@)]))
        },
        Command::TriggerCron { cron_id, scheduled_at } => if exists|k: int|
            0 <= k < state.work.runs@.len() && occurrence_run(#[trigger] state.work.runs@[k], cron_id@, scheduled_at) {
            Ok(None)
        } else if exists|c: int| first_enabled_cron(state.crons@, cron_id@, c) {
            let c = state.crons@[choose|c: int| first_enabled_cron(state.crons@, cron_id@, c)];
            Ok(Some(seq![(c.project_id@, c.agent_id@)]))
        } else {
            Ok(Some(Seq::empty()))
        },
        _ => Ok(Some(Seq::empty())),
    }
}

/// Whether work on Agent `agent_id` writes the workspace: the Agent must be
/// enabled and its configuration must suit the catalog; a Codex Agent writes,
/// once the settings give a permission snapshot.
pub open spec fn agent_writes(catalog: RunCatalog, agent_id: Seq<char>, limits: PermissionPolicyLimits) -> Outcome<
    bool,
> {
    if !has_enabled_agent(catalog.agents@, agent_id) {
        Err((ErrorCode::AgentNotFound, "enabled agent not found"@, false))
    } else {
        let agent = catalog.agents@[choose|c: int| first_enabled_agent(catalog.agents@, agent_id, c)];
        match config_check(catalog.providers@, agent.config) {
            Err(e) => Err(e),
            Ok(p) => if catalog.providers@[p].provider.kind != AgentMode::Codex {
                Ok(false)
            } else {
                match effective_profile(
                    setting_text(catalog.settings, "permissions.sandbox"@),
                    setting_text(catalog.settings, "permissions.approval"@),
                    AgentMode::Codex,
                    limits,
                ) {
                    Err(e) => Err(e),
                    Ok(_) => Ok(true),
                }
            },
        }
    }
}

/// Whether work on the first `upto` targets writes the workspace; every
/// target is checked, in order, and the first refusal wins.
pub open spec fn targets_write(
    catalog: RunCatalog,
    targets: Seq<(Seq<char>, Seq<char>)>,
    limits: PermissionPolicyLimits,
    upto: int,
) -> Outcome<bool>
    decreases upto,
{
    if upto <= 0 {
        Ok(false)
    } else {
        match targets_write(catalog, targets, limits, upto - 1) {
            Err(e) => Err(e),
            Ok(w) => match agent_writes(catalog, targets[upto - 1].1, limits) {
                Err(e) => Err(e),
                Ok(x) => Ok(w || x),
            },
        }
    }
}

/// The Project work tree a command must hold for writing, if any: that of
/// the first target's Project, when work on some target writes.
pub open spec fn write_path_check(state: ControlState, command: Command, limits: PermissionPolicyLimits) -> Outcome<
    Option<Seq<char>>,
> {
    match write_targets(state, command) {
        Err(e) => Err(e),
        Ok(None) => Ok(None),
        Ok(Some(targets)) => if targets.len() == 0 {
            Ok(None)
        } else {
            match targets_write(state.catalog, targets, limits, targets.len() as int) {
                Err(e) => Err(e),
                Ok(false) => Ok(None),
                Ok(true) => if !has_project(state.work.projects@, targets[0].0) {
                    Err((ErrorCode::InvalidProject, "project not found"@, false))
                } else {
                    Ok(
                        Some(
                            state.work.projects@[choose|c: int|
                                first_project(state.work.projects@, targets[0].0, c)].workdir@,
                        ),
                    )
                },
            }
        },
    }
}

fn has_occurrence(runs: &Vec<RunRecord>, cron_id: &str, scheduled_at: i64) -> (found: bool)
    ensures
        found == exists|k: int| 0 <= k < runs@.len() && occurrence_run(#[trigger] runs@[k], cron_id@, scheduled_at),
{
    let mut k: usize = 0;
    while k < runs.len()
        invariant
            k <= runs@.len(),
            forall|j: int| 0 <= j < k ==> !occurrence_run(#[trigger] runs@[j], cron_id@, scheduled_at),
        decreases runs.len() - k,
    {
        let hit = match &runs[k].cron_id {
            Some(c) => str_equals(c.as_str(), cron_id) && runs[k].scheduled_at == Some(scheduled_at),
            None => false,
        };
        if hit {
            return true;
        }
        k = k + 1;
    }
    false
}

fn check_agent_writes(catalog: &RunCatalog, agent_id: &str, limits: PermissionPolicyLimits) -> (result: Result<
    bool,
    ControlError,
>)
    ensures
        matches_outcome(result, agent_writes(*catalog, agent_id@, limits)),
{
    let a = match require_agent(&catalog.agents, agent_id) {
        Ok(a) => a,
        Err(e) => return Err(e),
    };
    let p = match validate_config(&catalog.providers, &catalog.agents[a].config) {
        Ok(p) => p,
        Err(e) => return Err(e),
    };
    if catalog.providers[p].provider.kind != AgentMode::Codex {
        return Ok(false);
    }
    match effective_permission_profile(&catalog.settings, AgentMode::Codex, limits) {
        Ok(_) => Ok(true),
        Err(e) => Err(e),
    }
}

proof fn lemma_targets_write_settles(
    catalog: RunCatalog,
    targets: Seq<(Seq<char>, Seq<char>)>,
    limits: PermissionPolicyLimits,
    upto: int,
    later: int,
)
    requires
        upto <= later,
        targets_write(catalog, targets, limits, upto) is Err,
    ensures
        targets_write(catalog, targets, limits, later) == targets_write(catalog, targets, limits, upto),
    decreases later - upto,
{
    if upto < later {
        lemma_targets_write_settles(catalog, targets, limits, upto, later - 1);
    }
}

/// The id pairs of `targets`.
pub open spec fn target_ids(targets: Seq<(String, String)>) -> Seq<(Seq<char>, Seq<char>)> {
    targets.map_values(|t: (String, String)| (t.0@, t.1@))
}

/// The Project work tree a command must hold for writing (see
/// `write_path_check`).
pub fn workspace_write_path(state: &ControlState, command: &Command, limits: PermissionPolicyLimits) -> (result:
    Result<Option<String>, ControlError>)
    ensures
        match (result, write_path_check(*state, *command, limits)) {
            (Ok(path), Ok(expected)) => opt_view(path) == expected,
            (Err(e), Err(spec)) => is_error(e, spec.0, spec.1, spec.2),
            _ => false,
        },
{
    let mut targets: Vec<(String, String)> = Vec::new();
    match command {
        Command::SendMessage { session_id, .. } => {
            let s = match find_session(&state.work.sessions, session_id.as_str()) {
                Some(s) => s,
                None => return Err(control_error(ErrorCode::SessionNotFound, "session not found", false)),
            };
            targets.push((state.work.sessions[s].project_id.clone(), state.work.sessions[s].agent_id.clone()));
            proof {
                let r = state.work.sessions@[s as int];
                assert(target_ids(targets@) =~= seq![(r.project_id@, r.agent_id@)]);
            }
        },
        Command::ForkSession { project_id, agent_id, .. } => {
            targets.push((project_id.clone(), agent_id.clone()));
            proof {
                assert(target_ids(targets@) =~= seq![(project_id@, agent_id@)]);
            }
        },
        Command::DeriveSession { project_id, source_session_id, agent_id, .. } => {
            let s = match find_session(&state.work.sessions, source_session_id.as_str()) {
                Some(s) => s,
                None => return Err(control_error(ErrorCode::SessionNotFound, "session not found", false)),
            };
            targets.push((project_id.clone(), agent_id.clone()));
            targets.push((state.work.sessions[s].project_id.clone(), state.work.sessions[s].agent_id.clone()));
            proof {
                let r = state.work.sessions@[s as int];
                assert(target_ids(targets@) =~= seq![(project_id@, agent_id@), (r.project_id@, r.agent_id@)]);
            }
        },
        Command::TriggerCron { cron_id, scheduled_at } => {
            if has_occurrence(&state.work.runs, cron_id.as_str(), *scheduled_at) {
                return Ok(None);
            }
            match find_enabled_cron(&state.crons, cron_id.as_str()) {
                Some(c) => {
                    targets.push((state.crons[c].project_id.clone(), state.crons[c].agent_id.clone()));
                    proof {
                        let r = state.crons@[c as int];
                        assert(target_ids(targets@) =~= seq![(r.project_id@, r.agent_id@)]);
                    }
                },
                None => {
                    proof {
                        assert(target_ids(targets@) =~= Seq::<(Seq<char>, Seq<char>)>::empty());
                    }
                },
            }
        },
        _ => {
            proof {
                assert(target_ids(targets@) =~= Seq::<(Seq<char>, Seq<char>)>::empty());
            }
        },
    }
    let ghost t = target_ids(targets@);
    proof {
        assert(write_targets(*state, *command) == Outcome::<Option<Seq<(Seq<char>, Seq<char>)>>>::Ok(Some(t)));
    }
    if targets.len() == 0 {
        return Ok(None);
    }
    let mut writes = false;
    let mut i: usize = 0;
    while i < targets.len()
        invariant
            i <= targets@.len(),
            t == target_ids(targets@),
            t.len() == targets@.len(),
            targets@.len() > 0,
            write_targets(*state, *command) == Outcome::<Option<Seq<(Seq<char>, Seq<char>)>>>::Ok(Some(t)),
            targets_write(state.catalog, t, limits, i as int) == Outcome::<bool>::Ok(writes),
        decreases targets.len() - i,
    {
        proof {
            assert(t[i as int].1 == targets@[i as int].1@);
        }
        match check_agent_writes(&state.catalog, targets[i].1.as_str(), limits) {
            Ok(w) => {
                writes = writes || w;
            },
            Err(e) => {
                proof {
                    lemma_targets_write_settles(state.catalog, t, limits, i + 1, t.len() as int);
                }
                return Err(e);
            },
        }
        i = i + 1;
    }
    if !writes {
        return Ok(None);
    }
    proof {
        assert(t[0].0 == targets@[0].0@);
    }
    match find_project(&state.work.projects, targets[0].0.as_str()) {
        Some(p) => Ok(Some(state.work.projects[p].workdir.clone())),
        None => Err(control_error(ErrorCode::InvalidProject, "project not found", false)),
    }
}

/// Two states hold the same records.
pub open spec fn same_records(old: ControlState, new: ControlState) -> bool {
    &&& new.work.projects@ == old.work.projects@
    &&& new.work.sessions@ == old.work.sessions@
    &&& new.work.runs@ == old.work.runs@
    &&& new.work.journals@ == old.work.journals@
    &&& new.messages@ == old.messages@
    &&& new.run_credentials@ == old.run_credentials@
    &&& new.catalog.agents@ == old.catalog.agents@
    &&& new.catalog.providers@ == old.catalog.providers@
    &&& new.catalog.provider_credentials@ == old.catalog.provider_credentials@
    &&& new.catalog.settings.entries@ == old.catalog.settings.entries@
    &&& new.settings_revision == old.settings_revision
    &&& new.crons@ == old.crons@
}

/// A refused command changes nothing: whatever the command, when it is
/// refused every record of the state is as it was.
pub proof fn lemma_refused_command_changes_nothing(
    old: ControlState,
    new: ControlState,
    command: Command,
    git_baseline: Option<&GitBaseline>,
    git_root: Option<GitRoot>,
    limits: PermissionPolicyLimits,
    derive_source_locked: bool,
    schema: &Vec<SettingDefinition>,
    defaults: SettingsDocument,
    e: ControlError,
)
    requires
        command_applied(
            old,
            new,
            command,
            git_baseline,
            git_root,
            limits,
            derive_source_locked,
            schema,
            defaults,
            Err(e),
        ),
    ensures
        same_records(old, new),
{
}

/// The Project whose Git snapshot a command needs, if any: the Session's
/// Project for a user Message, the named Project for a fork or derivation,
/// and, for a Cron occurrence without a Run yet, the enabled Cron's Project
/// when its Agent runs on Codex (the Agent must be enabled and suit the
/// catalog).
pub open spec fn baseline_project(state: ControlState, command: Command) -> Outcome<Option<Seq<char>>> {
    let sessions = state.work.sessions@;
    match command {
        Command::SendMessage { session_id, .. } => if !(exists|c: int| first_session(sessions, session_id@, c)) {
            Err((ErrorCode::SessionNotFound, "session not found"@, false))
        } else {
            Ok(Some(sessions[choose|c: int| first_session(sessions, session_id@, c)].project_id@))
        },
        Command::ForkSession { project_id, .. } => Ok(Some(project_id@)),
        Command::DeriveSession { project_id, .. } => Ok(Some(project_id@)),
        Command::TriggerCron { cron_id, scheduled_at } => if exists|k: int|
            0 <= k < state.work.runs@.len() && occurrence_run(#[trigger] state.work.runs@[k], cron_id@, scheduled_at) {
            Ok(None)
        } else if !(exists|c: int| first_enabled_cron(state.crons@, cron_id@, c)) {
            Ok(None)
        } else {
            let cron = state.crons@[choose|c: int| first_enabled_cron(state.crons@, cron_id@, c)];
            if !has_enabled_agent(state.catalog.agents@, cron.agent_id@) {
                Err((ErrorCode::AgentNotFound, "enabled agent not found"@, false))
            } else {
                let agent = state.catalog.agents@[choose|c: int|
                    first_enabled_agent(state.catalog.agents@, cron.agent_id@, c)];
                match config_check(state.catalog.providers@, agent.config) {
                    Err(e) => Err(e),
                    Ok(p) => if state.catalog.providers@[p].provider.kind != AgentMode::Codex {
                        Ok(None)
                    } else {
                        Ok(Some(cron.project_id@))
                    },
                }
            }
        },
        _ => Ok(None),
    }
}

/// The work tree whose clean Git snapshot a command needs (see
/// `baseline_project`): that of the first Project with the id.
pub open spec fn baseline_workdir_check(state: ControlState, command: Command) -> Outcome<Option<Seq<char>>> {
    match baseline_project(state, command) {
        Err(e) => Err(e),
        Ok(None) => Ok(None),
        Ok(Some(project_id)) => if !has_project(state.work.projects@, project_id) {
            Err((ErrorCode::InvalidProject, "project not found"@, false))
        } else {
            Ok(Some(state.work.projects@[choose|c: int| first_project(state.work.projects@, project_id, c)].workdir@))
        },
    }
}

/// The work tree whose clean Git snapshot a command needs (see
/// `baseline_workdir_check`); the host takes the snapshot.
pub fn git_baseline_workdir(state: &ControlState, command: &Command) -> (result: Result<Option<String>, ControlError>)
    ensures
        match (result, baseline_workdir_check(*state, *command)) {
            (Ok(path), Ok(expected)) => opt_view(path) == expected,
            (Err(e), Err(spec)) => is_error(e, spec.0, spec.1, spec.2),
            _ => false,
        },
{
    let project_id: &str = match command {
        Command::SendMessage { session_id, .. } => {
            match find_session(&state.work.sessions, session_id.as_str()) {
                Some(s) => state.work.sessions[s].project_id.as_str(),
                None => return Err(control_error(ErrorCode::SessionNotFound, "session not found", false)),
            }
        },
        Command::ForkSession { project_id, .. } => project_id.as_str(),
        Command::DeriveSession { project_id, .. } => project_id.as_str(),
        Command::TriggerCron { cron_id, scheduled_at } => {
            if has_occurrence(&state.work.runs, cron_id.as_str(), *scheduled_at) {
                return Ok(None);
            }
            let c = match find_enabled_cron(&state.crons, cron_id.as_str()) {
                Some(c) => c,
                None => return Ok(None),
            };
            let a = match require_agent(&state.catalog.agents, state.crons[c].agent_id.as_str()) {
                Ok(a) => a,
                Err(e) => return Err(e),
            };
            let p = match validate_config(&state.catalog.providers, &state.catalog.agents[a].config) {
                Ok(p) => p,
                Err(e) => return Err(e),
            };
            if state.catalog.providers[p].provider.kind != AgentMode::Codex {
                return Ok(None);
            }
            state.crons[c].project_id.as_str()
        },
        _ => return Ok(None),
    };
    proof {
        assert(baseline_project(*state, *command) == Outcome::<Option<Seq<char>>>::Ok(Some(project_id@)));
    }
    match find_project(&state.work.projects, project_id) {
        Some(p) => Ok(Some(state.work.projects[p].workdir.clone())),
        None => Err(control_error(ErrorCode::InvalidProject, "project not found", false)),
    }
}


/// What a command's events depend on besides its outcome.
#[derive(Debug)]
pub enum EventKey {
    /// One event of this kind about this entity.
    Fixed(EventKind, Option<String>),
    /// The Session's (new) Agent was updated, then the Session.
    SessionConfig(String),
    /// The Session changed its Agent, if its Agent changed.
    SessionAgent(String),
    /// A Run was queued, after the creation of this Session if any.
    NewRun(Option<String>),
    /// A derived Session: its creation if a Session was created, then its Run.
    Derive(String),
    /// A Cron occurrence: a Run if one was queued.
    Trigger,
}

/// What a command's events depend on.
pub open spec fn key_of(command: Command) -> EventKey {
    match command {
        Command::RegisterProject { id, .. } => EventKey::Fixed(EventKind::ProjectRegistered, Some(id)),
        Command::SetProjectDefaultAgent { project_id, .. } => EventKey::Fixed(
            EventKind::ProjectDefaultAgentUpdated,
            Some(project_id),
        ),
        Command::RegisterAgent { id, .. } => EventKey::Fixed(EventKind::AgentRegistered, Some(id)),
        Command::UpdateAgent { id, .. } => EventKey::Fixed(EventKind::AgentUpdated, Some(id)),
        Command::SetSessionConfig { session_id, .. } => EventKey::SessionConfig(session_id),
        Command::CreateSession { id, .. } => EventKey::Fixed(EventKind::SessionCreated, Some(id)),
        Command::SetSessionAgent { session_id, .. } => EventKey::SessionAgent(session_id),
        Command::RenameSession { session_id, .. } => EventKey::Fixed(EventKind::SessionRenamed, Some(session_id)),
        Command::SetSessionTitle { session_id, .. } => EventKey::Fixed(
            EventKind::SessionTitleUpdated,
            Some(session_id),
        ),
        Command::SendMessage { .. } => EventKey::NewRun(None),
        Command::ForkSession { id, .. } => EventKey::NewRun(Some(id)),
        Command::DeriveSession { id, .. } => EventKey::Derive(id),
        Command::CancelRun { run_id } => EventKey::Fixed(EventKind::RunUpdated, Some(run_id)),
        Command::SetCronEnabled { cron_id, .. } => EventKey::Fixed(EventKind::CronEnabledChanged, Some(cron_id)),
        Command::TriggerCron { .. } => EventKey::Trigger,
        Command::ImportProject { archive, .. } => EventKey::Fixed(
            EventKind::ProjectImported,
            Some(archive.project.id),
        ),
        Command::SaveSettings { .. } => EventKey::Fixed(EventKind::SettingsUpdated, None),
        Command::ResetSettings => EventKey::Fixed(EventKind::SettingsReset, None),
    }
}

/// The Agent id of the first Session with id `id`, if there is one.
pub open spec fn session_agent(sessions: Seq<crate::runs::SessionRecord>, id: Seq<char>) -> Option<Seq<char>> {
    if exists|c: int| first_session(sessions, id, c) {
        Some(sessions[choose|c: int| first_session(sessions, id, c)].agent_id@)
    } else {
        None
    }
}

/// The id of the Run at position `k`, if there is one.
pub open spec fn run_at(runs: Seq<RunRecord>, k: int) -> Option<Seq<char>> {
    if 0 <= k < runs.len() {
        Some(runs[k].id@)
    } else {
        None
    }
}

/// The Run an outcome names, if it names one.
pub open spec fn run_entity(runs: Seq<RunRecord>, applied: Applied) -> Option<Seq<char>> {
    match applied {
        Applied::Run(k) => run_at(runs, k as int),
        _ => None,
    }
}

/// The events of a command applied with outcome `applied`, turning `old`
/// into `new`.
pub open spec fn key_events(key: EventKey, old: ControlState, new: ControlState, applied: Applied) -> Seq<
    (Seq<char>, Option<Seq<char>>),
> {
    match key {
        EventKey::Fixed(kind, entity) => seq![event_of(kind, opt_view(entity))],
        EventKey::SessionConfig(sid) => seq![
            event_of(EventKind::AgentUpdated, session_agent(new.work.sessions@, sid@)),
            event_of(EventKind::SessionAgentUpdated, Some(sid@)),
        ],
        EventKey::SessionAgent(sid) => if session_agent(old.work.sessions@, sid@) == session_agent(
            new.work.sessions@,
            sid@,
        ) {
            Seq::empty()
        } else {
            seq![event_of(EventKind::SessionAgentUpdated, Some(sid@))]
        },
        EventKey::NewRun(created) => (match created {
            Some(id) => seq![event_of(EventKind::SessionCreated, Some(id@))],
            None => Seq::empty(),
        }) + seq![event_of(EventKind::RunUpdated, run_entity(new.work.runs@, applied))],
        EventKey::Derive(id) => (if new.work.sessions@.len() > old.work.sessions@.len() {
            seq![event_of(EventKind::SessionCreated, Some(id@))]
        } else {
            Seq::empty()
        }) + seq![event_of(EventKind::RunUpdated, run_entity(new.work.runs@, applied))],
        EventKey::Trigger => match applied {
            Applied::CronTriggered(CronTrigger::Queued(k)) => seq![
                event_of(EventKind::CronRunTriggered, run_at(new.work.runs@, k as int)),
            ],
            _ => Seq::empty(),
        },
    }
}

/// The events a command queues: none when it is refused; otherwise those
/// of `key_events`. A Session title update, for one, queues one
/// `session.title_updated` event about that Session.
pub open spec fn command_events(
    old: ControlState,
    new: ControlState,
    command: Command,
    result: Result<Applied, ControlError>,
) -> Seq<(Seq<char>, Option<Seq<char>>)> {
    match result {
        Err(_) => Seq::empty(),
        Ok(applied) => key_events(key_of(command), old, new, applied),
    }
}

fn event_key(command: &Command) -> (key: EventKey)
    ensures
        key == key_of(*command),
{
    match command {
        Command::RegisterProject { id, .. } => EventKey::Fixed(EventKind::ProjectRegistered, Some(id.clone())),
        Command::SetProjectDefaultAgent { project_id, .. } => EventKey::Fixed(
            EventKind::ProjectDefaultAgentUpdated,
            Some(project_id.clone()),
        ),
        Command::RegisterAgent { id, .. } => EventKey::Fixed(EventKind::AgentRegistered, Some(id.clone())),
        Command::UpdateAgent { id, .. } => EventKey::Fixed(EventKind::AgentUpdated, Some(id.clone())),
        Command::SetSessionConfig { session_id, .. } => EventKey::SessionConfig(session_id.clone()),
        Command::CreateSession { id, .. } => EventKey::Fixed(EventKind::SessionCreated, Some(id.clone())),
        Command::SetSessionAgent { session_id, .. } => EventKey::SessionAgent(session_id.clone()),
        Command::RenameSession { session_id, .. } => EventKey::Fixed(
            EventKind::SessionRenamed,
            Some(session_id.clone()),
        ),
        Command::SetSessionTitle { session_id, .. } => EventKey::Fixed(
            EventKind::SessionTitleUpdated,
            Some(session_id.clone()),
        ),
        Command::SendMessage { .. } => EventKey::NewRun(None),
        Command::ForkSession { id, .. } => EventKey::NewRun(Some(id.clone())),
        Command::DeriveSession { id, .. } => EventKey::Derive(id.clone()),
        Command::CancelRun { run_id } => EventKey::Fixed(EventKind::RunUpdated, Some(run_id.clone())),
        Command::SetCronEnabled { cron_id, .. } => EventKey::Fixed(
            EventKind::CronEnabledChanged,
            Some(cron_id.clone()),
        ),
        Command::TriggerCron { .. } => EventKey::Trigger,
        Command::ImportProject { archive, .. } => EventKey::Fixed(
            EventKind::ProjectImported,
            Some(archive.project.id.clone()),
        ),
        Command::SaveSettings { .. } => EventKey::Fixed(EventKind::SettingsUpdated, None),
        Command::ResetSettings => EventKey::Fixed(EventKind::SettingsReset, None),
    }
}

fn session_agent_of(sessions: &Vec<crate::runs::SessionRecord>, id: &str) -> (agent: Option<String>)
    ensures
        opt_view(agent) == session_agent(sessions@, id@),
{
    match find_session(sessions, id) {
        Some(k) => Some(sessions[k].agent_id.clone()),
        None => None,
    }
}

fn run_at_exec(runs: &Vec<RunRecord>, k: usize) -> (id: Option<String>)
    ensures
        opt_view(id) == run_at(runs@, k as int),
{
    if k < runs.len() {
        Some(runs[k].id.clone())
    } else {
        None
    }
}

fn run_entity_exec(runs: &Vec<RunRecord>, applied: Applied) -> (id: Option<String>)
    ensures
        opt_view(id) == run_entity(runs@, applied),
{
    match applied {
        Applied::Run(k) => run_at_exec(runs, k),
        _ => None,
    }
}

/// Applies one command to the state (see `command_applied`) and queues the
/// events it announces in `outbox` (see `command_events`): a refused
/// command changes nothing and queues nothing.
pub fn apply_command(
    state: &mut ControlState,
    command: Command,
    git_baseline: Option<&GitBaseline>,
    git_root: Option<GitRoot>,
    limits: PermissionPolicyLimits,
    derive_source_locked: bool,
    schema: &Vec<SettingDefinition>,
    defaults: SettingsDocument,
    outbox: &mut Vec<PendingEvent>,
) -> (result: Result<Applied, ControlError>)
    requires
        command matches Command::SendMessage { session_id, .. } ==> session_versions_below_max(
            old(state).work.sessions@,
            session_id@,
        ),
        command matches Command::DeriveSession { source_session_id, .. } ==> session_versions_below_max(
            old(state).work.sessions@,
            source_session_id@,
        ),
        command is CancelRun ==> held_versions_below_max(old(state).work.sessions@),
        command matches Command::UpdateAgent { id, .. } ==> revisions_below_max(old(state).catalog.agents@, id@),
        command matches Command::SetSessionConfig { session_id, .. } ==> session_versions_below_max(
            old(state).work.sessions@,
            session_id@,
        ) && own_agent_revisions_below_max(old(state).catalog.agents@, session_id@),
        (command is RegisterProject || command is ImportProject) ==> git_root is Some,
    ensures
        command_applied(
            *old(state),
            *final(state),
            command,
            git_baseline,
            git_root,
            limits,
            derive_source_locked,
            schema,
            defaults,
            result,
        ),
        event_views(final(outbox)@) == event_views(old(outbox)@) + command_events(
            *old(state),
            *final(state),
            command,
            result,
        ),
{
    let ghost start = *state;
    let key = event_key(&command);
    let old_agent = match &key {
        EventKey::SessionAgent(sid) => session_agent_of(&state.work.sessions, sid.as_str()),
        _ => None,
    };
    let old_sessions = state.work.sessions.len();
    let cancelling = matches!(command, Command::CancelRun { .. });
    let result = dispatch_command(
        state,
        command,
        git_baseline,
        git_root,
        limits,
        derive_source_locked,
        schema,
        defaults,
        outbox,
    );
    let ghost before = event_views(old(outbox)@);
    match &result {
        Err(_) => {
            proof {
                assert(event_views(outbox@) =~= before + Seq::<(Seq<char>, Option<Seq<char>>)>::empty());
            }
        },
        Ok(applied) => {
            let applied = *applied;
            match key {
                EventKey::Fixed(kind, entity) => {
                    if !cancelling {
                        push_event(outbox, kind, entity);
                    }
                },
                EventKey::SessionConfig(sid) => {
                    let agent = session_agent_of(&state.work.sessions, sid.as_str());
                    push_event(outbox, EventKind::AgentUpdated, agent);
                    push_event(outbox, EventKind::SessionAgentUpdated, Some(sid));
                },
                EventKey::SessionAgent(sid) => {
                    let agent = session_agent_of(&state.work.sessions, sid.as_str());
                    let same = match (&old_agent, &agent) {
                        (Some(a), Some(b)) => str_equals(a.as_str(), b.as_str()),
                        (None, None) => true,
                        _ => false,
                    };
                    if !same {
                        push_event(outbox, EventKind::SessionAgentUpdated, Some(sid));
                    }
                },
                EventKey::NewRun(created) => {
                    match created {
                        Some(id) => push_event(outbox, EventKind::SessionCreated, Some(id)),
                        None => {},
                    }
                    let run = run_entity_exec(&state.work.runs, applied);
                    push_event(outbox, EventKind::RunUpdated, run);
                },
                EventKey::Derive(id) => {
                    if state.work.sessions.len() > old_sessions {
                        push_event(outbox, EventKind::SessionCreated, Some(id));
                    }
                    let run = run_entity_exec(&state.work.runs, applied);
                    push_event(outbox, EventKind::RunUpdated, run);
                },
                EventKey::Trigger => {
                    match applied {
                        Applied::CronTriggered(CronTrigger::Queued(k)) => {
                            let run = run_at_exec(&state.work.runs, k);
                            push_event(outbox, EventKind::CronRunTriggered, run);
                        },
                        _ => {},
                    }
                },
            }
            proof {
                assert(event_views(outbox@) =~= before + command_events(start, *state, command, result));
            }
        },
    }
    result
}

/// A refused command queues no event.
pub proof fn lemma_refused_command_queues_nothing(
    old: ControlState,
    new: ControlState,
    command: Command,
    error: ControlError,
)
    ensures
        command_events(old, new, command, Err(error)) == Seq::<(Seq<char>, Option<Seq<char>>)>::empty(),
{
}

} // verus!
