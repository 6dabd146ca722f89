//! Conversation Messages and the interactive Runs that answer them.
use vstd::prelude::*;
use crate::catalog::{
    config_check, config_view, copy_config, copy_provider, first_enabled_agent, has_enabled_agent,
    provider_view, require_agent, validate_config, AgentProvider, AgentProviderView, AgentRecord,
};
use crate::archive::hyphenated_uuid;
use crate::clock::now;
use crate::errors::{control_error, is_error, ControlError, ErrorCode, Outcome};
use crate::json::opt_view;
use crate::permissions::{
    effective_permission_profile, effective_profile, AgentMode, PermissionPolicyLimits,
    RunPermissionProfile,
};
use crate::runs::{RunRecord, SessionRecord, WorkingSet};
use crate::sessions::{find_session, first_session, session_versions_below_max};
use crate::settings::{setting_text, SettingsDocument};
use crate::text::{is_blank, is_blank_str, push_str, str_equals};

verus! {

/// An immutable conversation Message.
#[derive(Debug)]
pub struct MessageRecord {
    pub id: String,
    pub project_id: String,
    pub parent_message_id: Option<String>,
    /// `user`, `assistant` or `system`.
    pub role: String,
    pub kind: String,
    pub text: Option<String>,
    /// The Git commit the Project was at when a user wrote the Message.
    pub git_commit: Option<String>,
    /// Structured data attached to the Message, as JSON text.
    pub data: Option<String>,
    pub created_at: i64,
}

/// The Git state a user Message is written against.
#[derive(Debug)]
pub struct GitBaseline {
    pub commit: String,
    pub index_tree: String,
}

/// What the catalog holds for starting Runs: settings, Agents, providers and
/// the credential references stored for providers.
#[derive(Debug)]
pub struct RunCatalog {
    pub settings: SettingsDocument,
    pub agents: Vec<AgentRecord>,
    pub providers: Vec<AgentProviderView>,
    /// Provider id and the reference of its stored secret.
    pub provider_credentials: Vec<(String, String)>,
}

/// `uuid::Uuid::new_v4().to_string()`: a fresh random UUID in its
/// hyphenated text (`Display` writes `as_hyphenated`), whose version digit
/// is 4. Which random bits it holds is not stated.
#[verifier::external_body]
pub(crate) fn new_uuid() -> (id: String)
    ensures
        hyphenated_uuid(id@),
        id@[14] == '4',
{
    uuid::Uuid::new_v4().to_string()
}

/// A new Message with a fresh id, created now.
pub fn new_message(
    project: &str,
    parent: Option<&str>,
    role: &str,
    kind: &str,
    text: Option<String>,
    git_commit: Option<&str>,
    data: Option<String>,
) -> (message: MessageRecord)
    ensures
        message.project_id@ == project@,
        opt_view(message.parent_message_id) == match parent {
            Some(p) => Some(p@),
            None => None,
        },
        message.role@ == role@,
        message.kind@ == kind@,
        message.text == text,
        opt_view(message.git_commit) == match git_commit {
            Some(c) => Some(c@),
            None => None,
        },
        message.data == data,
        message.created_at >= 0,
        hyphenated_uuid(message.id@),
{
    let parent_message_id = match parent {
        Some(p) => Some(String::from_str(p)),
        None => None,
    };
    let git_commit = match git_commit {
        Some(c) => Some(String::from_str(c)),
        None => None,
    };
    MessageRecord {
        id: new_uuid(),
        project_id: String::from_str(project),
        parent_message_id,
        role: String::from_str(role),
        kind: String::from_str(kind),
        text,
        git_commit,
        data,
        created_at: now(),
    }
}

/// The provider that the first provider with `id` names.
pub open spec fn provider_at(providers: Seq<AgentProviderView>, id: Seq<char>) -> AgentProvider {
    providers[choose|k: int| crate::catalog::first_provider(providers, id, k)].provider
}

/// The checks a user Message passes before its Run is queued, in order: the
/// text is not blank, the Session exists and is idle, its Agent is enabled,
/// the Agent's configuration suits the catalog, and the settings give a
/// permission snapshot. On success, the positions of the Session and of the
/// Agent, and the snapshot.
pub open spec fn message_check(
    catalog: RunCatalog,
    sessions: Seq<SessionRecord>,
    session_id: Seq<char>,
    text: Seq<char>,
    limits: PermissionPolicyLimits,
) -> Outcome<(int, int, RunPermissionProfile)> {
    if is_blank(text) {
        Err((ErrorCode::InvalidMessageRole, "message text is required"@, false))
    } else if !(exists|c: int| first_session(sessions, session_id, c)) {
        Err((ErrorCode::SessionNotFound, "session not found"@, false))
    } else {
        let s = choose|c: int| first_session(sessions, session_id, c);
        let session = sessions[s];
        if session.active_run_id.is_some() {
            Err((ErrorCode::SessionBusy, "session already has an active run"@, false))
        } else if !has_enabled_agent(catalog.agents@, session.agent_id@) {
            Err((ErrorCode::AgentNotFound, "enabled agent not found"@, false))
        } else {
            let a = choose|c: int| first_enabled_agent(catalog.agents@, session.agent_id@, c);
            let agent = catalog.agents@[a];
            match config_check(catalog.providers@, agent.config) {
                Err(e) => Err(e),
                Ok(p) => match effective_profile(
                    setting_text(catalog.settings, "permissions.sandbox"@),
                    setting_text(catalog.settings, "permissions.approval"@),
                    catalog.providers@[p].provider.kind,
                    limits,
                ) {
                    Err(e) => Err(e),
                    Ok(profile) => Ok((s, a, profile)),
                },
            }
        }
    }
}

/// The credential reference stored for a provider, if any (the first one).
pub open spec fn credential_of(credentials: Seq<(String, String)>, provider_id: Seq<char>) -> Option<
    Seq<char>,
> {
    if exists|k: int| 0 <= k < credentials.len() && credentials[k].0@ == provider_id {
        let k = choose|k: int|
            0 <= k < credentials.len() && credentials[k].0@ == provider_id && forall|j: int|
                0 <= j < k ==> (#[trigger] credentials[j]).0@ != provider_id;
        Some(credentials[k].1@)
    } else {
        None
    }
}

/// The new Run a user Message queues, for Session `session`, Agent `agent`,
/// provider `provider` and permission snapshot `profile`: queued under
/// operation `workspace-<id>` at epoch zero, answering `user_message`, and
/// based on the Git baseline when its provider is Codex.
pub open spec fn queued_run(
    run: RunRecord,
    session: SessionRecord,
    agent: AgentRecord,
    provider: AgentProvider,
    profile: RunPermissionProfile,
    user_message: Seq<char>,
    baseline: GitBaseline,
) -> bool {
    &&& run.project_id@ == session.project_id@
    &&& run.base_message_id@ == user_message
    &&& run.last_message_id.is_none()
    &&& opt_view(run.session_id) == Some(session.id@)
    &&& run.agent_id@ == agent.id@
    &&& run.agent_revision == agent.revision
    &&& config_view(run.config) == config_view(agent.config)
    &&& provider_view(run.provider) == provider_view(provider)
    &&& run.permission_profile == profile
    &&& run.native_approvals@.len() == 0
    &&& run.trigger@ == "manual"@
    &&& run.cron_id.is_none()
    &&& run.scheduled_at.is_none()
    &&& if provider.kind == AgentMode::Codex {
        opt_view(run.workspace_base_commit) == Some(baseline.commit@) && opt_view(
            run.workspace_base_index_tree,
        ) == Some(baseline.index_tree@)
    } else {
        run.workspace_base_commit.is_none() && run.workspace_base_index_tree.is_none()
    }
    &&& run.status@ == "queued"@
    &&& (run.phase matches Some(p) && p@ == "queued"@)
    &&& (run.operation_id matches Some(op) && op@ == "workspace-"@ + run.id@)
    &&& run.lease_epoch == 0
    &&& run.error.is_none()
}

/// What sending a user Message does (see `send_message`): on success, the
/// Message, the queued Run, the Session's new head and hold, and the Run's
/// credential binding; on an error, the error `message_check` gives and no
/// change.
pub open spec fn message_sent(
    old_state: WorkingSet,
    new_state: WorkingSet,
    old_messages: Seq<MessageRecord>,
    new_messages: Seq<MessageRecord>,
    old_credentials: Seq<(String, String)>,
    new_credentials: Seq<(String, String)>,
    catalog: RunCatalog,
    session_id: Seq<char>,
    text: Seq<char>,
    git_baseline: GitBaseline,
    limits: PermissionPolicyLimits,
    result: Result<usize, ControlError>,
) -> bool {
    match (result, message_check(catalog, old_state.sessions@, session_id, text, limits)) {
        (Ok(r), Ok((s, a, profile))) => {
            let session = old_state.sessions@[s];
            let agent = catalog.agents@[a];
            let provider = provider_at(catalog.providers@, agent.config.provider_id@);
            let user = new_messages.last();
            let run = new_state.runs@[r as int];
            &&& new_messages == old_messages.push(user)
            &&& user.project_id@ == session.project_id@
            &&& opt_view(user.parent_message_id) == Some(session.current_message_id@)
            &&& user.role@ == "user"@
            &&& user.kind@ == "standard"@
            &&& opt_view(user.text) == Some(text)
            &&& opt_view(user.git_commit) == Some(git_baseline.commit@)
            &&& user.data.is_none()
            &&& r == old_state.runs@.len()
            &&& new_state.runs@ == old_state.runs@.push(run)
            &&& queued_run(run, session, agent, provider, profile, user.id@, git_baseline)
            &&& new_state.sessions@ == old_state.sessions@.update(
                s,
                SessionRecord {
                    current_message_id: new_state.sessions@[s].current_message_id,
                    version: (session.version + 1) as u64,
                    active_run_id: new_state.sessions@[s].active_run_id,
                    ..session
                },
            )
            &&& new_state.sessions@[s].current_message_id@ == user.id@
            &&& opt_view(new_state.sessions@[s].active_run_id) == Some(run.id@)
            &&& match credential_of(catalog.provider_credentials@, agent.config.provider_id@) {
                Some(reference) => new_credentials.len() == old_credentials.len()
                    + 1 && new_credentials.take(old_credentials.len() as int)
                    == old_credentials && new_credentials.last().0@ == run.id@
                    && new_credentials.last().1@ == reference,
                None => new_credentials == old_credentials,
            }
            &&& new_state.projects == old_state.projects
            &&& new_state.journals == old_state.journals
        },
        (Err(e), Err(spec)) => is_error(e, spec.0, spec.1, spec.2) && new_state == old_state && new_messages == old_messages && new_credentials == old_credentials,
        _ => false,
    }
}

/// Writes a user Message into its Session and queues the Run that answers
/// it (see `message_check` and `queued_run`): the Message follows the
/// Session's head and records the Git commit; the Session moves its head to
/// it, raises its version and is held by the new Run; the Run's provider
/// credential, if one is stored, is bound to the Run. Returns the Run's
/// position.
pub fn send_message(
    state: &mut WorkingSet,
    messages: &mut Vec<MessageRecord>,
    run_credentials: &mut Vec<(String, String)>,
    catalog: &RunCatalog,
    session_id: String,
    text: String,
    git_baseline: &GitBaseline,
    limits: PermissionPolicyLimits,
) -> (result: Result<usize, ControlError>)
    requires
        session_versions_below_max(old(state).sessions@, session_id@),
    ensures
        message_sent(
            *old(state),
            *final(state),
            old(messages)@,
            final(messages)@,
            old(run_credentials)@,
            final(run_credentials)@,
            *catalog,
            session_id@,
            text@,
            *git_baseline,
            limits,
            result,
        ),
{
    if is_blank_str(text.as_str()) {
        return Err(control_error(ErrorCode::InvalidMessageRole, "message text is required", false));
    }
    let s = match find_session(&state.sessions, session_id.as_str()) {
        Some(s) => s,
        None => return Err(control_error(ErrorCode::SessionNotFound, "session not found", false)),
    };
    if state.sessions[s].active_run_id.is_some() {
        return Err(control_error(ErrorCode::SessionBusy, "session already has an active run", false));
    }
    let a = match require_agent(&catalog.agents, state.sessions[s].agent_id.as_str()) {
        Ok(a) => a,
        Err(e) => return Err(e),
    };
    let agent = &catalog.agents[a];
    let p = match validate_config(&catalog.providers, &agent.config) {
        Ok(p) => p,
        Err(e) => return Err(e),
    };
    let provider = &catalog.providers[p].provider;
    let profile = match effective_permission_profile(&catalog.settings, provider.kind, limits) {
        Ok(profile) => profile,
        Err(e) => return Err(e),
    };
    let user = new_message(
        state.sessions[s].project_id.as_str(),
        Some(state.sessions[s].current_message_id.as_str()),
        "user",
        "standard",
        Some(text),
        Some(git_baseline.commit.as_str()),
        None,
    );
    let user_id = user.id.clone();
    messages.push(user);
    let run_id = new_uuid();
    let ghost before = state.sessions@;
    state.sessions[s].current_message_id = user_id.clone();
    state.sessions[s].version = state.sessions[s].version + 1;
    state.sessions[s].active_run_id = Some(run_id.clone());
    proof {
        assert(state.sessions@ =~= before.update(
            s as int,
            SessionRecord {
                current_message_id: state.sessions@[s as int].current_message_id,
                version: (before[s as int].version + 1) as u64,
                active_run_id: state.sessions@[s as int].active_run_id,
                ..before[s as int]
            },
        ));
    }
    let codex = provider.kind == AgentMode::Codex;
    let workspace_base_commit = if codex {
        Some(git_baseline.commit.clone())
    } else {
        None
    };
    let workspace_base_index_tree = if codex {
        Some(git_baseline.index_tree.clone())
    } else {
        None
    };
    let mut operation_id = String::from_str("workspace-");
    push_str(&mut operation_id, run_id.as_str());
    let run = RunRecord {
        id: run_id.clone(),
        project_id: state.sessions[s].project_id.clone(),
        session_id: Some(session_id),
        status: String::from_str("queued"),
        phase: Some(String::from_str("queued")),
        operation_id: Some(operation_id),
        lease_epoch: 0,
        error: None,
        permission_profile: profile,
        agent_id: agent.id.clone(),
        agent_revision: agent.revision,
        config: copy_config(&agent.config),
        provider: copy_provider(provider),
        trigger: String::from_str("manual"),
        cron_id: None,
        scheduled_at: None,
        workspace_base_commit,
        workspace_base_index_tree,
        base_message_id: user_id,
        last_message_id: None,
        native_approvals: Vec::new(),
    };
    let mut k: usize = 0;
    let mut reference: Option<String> = None;
    while k < catalog.provider_credentials.len() && reference.is_none()
        invariant
            k <= catalog.provider_credentials@.len(),
            reference matches Some(r) ==> credential_of(
                catalog.provider_credentials@,
                agent.config.provider_id@,
            ) == Some(r@),
            reference is None ==> forall|j: int|
                0 <= j < k ==> (#[trigger] catalog.provider_credentials@[j]).0@
                    != agent.config.provider_id@,
        decreases catalog.provider_credentials.len() - k,
    {
        if str_equals(catalog.provider_credentials[k].0.as_str(), agent.config.provider_id.as_str()) {
            proof {
                let creds = catalog.provider_credentials@;
                let id = agent.config.provider_id@;
                let c = choose|c: int|
                    0 <= c < creds.len() && creds[c].0@ == id && forall|j: int|
                        0 <= j < c ==> (#[trigger] creds[j]).0@ != id;
                assert(0 <= k < creds.len() && creds[k as int].0@ == id && forall|j: int|
                    0 <= j < k ==> (#[trigger] creds[j]).0@ != id);
                assert(c == k) by {
                    if c < k {
                        assert(creds[c].0@ != id);
                    } else if c > k {
                        assert(creds[k as int].0@ != id);
                    }
                }
            }
            reference = Some(catalog.provider_credentials[k].1.clone());
        }
        k = k + 1;
    }
    match reference {
        Some(r) => {
            let ghost before_credentials = run_credentials@;
            run_credentials.push((run_id, r));
            proof {
                assert(run_credentials@.take(before_credentials.len() as int) =~= before_credentials);
            }
        },
        None => {},
    }
    state.runs.push(run);
    Ok(state.runs.len() - 1)
}

/// `k` is the first Message with id `id`.
pub open spec fn first_message(messages: Seq<MessageRecord>, id: Seq<char>, k: int) -> bool {
    0 <= k < messages.len() && messages[k].id@ == id && forall|j: int|
        0 <= j < k ==> (#[trigger] messages[j]).id@ != id
}

/// Where following parent links from a Message leads.
pub enum Ancestry {
    /// The positions of the Messages met, head first, ending at a root.
    Path(Seq<int>),
    /// A Message on the way is missing.
    Missing,
    /// The walk did not end within the steps allowed (the links form a cycle).
    Endless,
}

/// The Messages met from `id` by parent links, in at most `fuel` steps.
pub open spec fn ancestry(messages: Seq<MessageRecord>, id: Seq<char>, fuel: nat) -> Ancestry
    decreases fuel,
{
    if fuel == 0 {
        Ancestry::Endless
    } else if !(exists|k: int| first_message(messages, id, k)) {
        Ancestry::Missing
    } else {
        let k = choose|k: int| first_message(messages, id, k);
        match messages[k].parent_message_id {
            None => Ancestry::Path(seq![k]),
            Some(parent) => match ancestry(messages, parent@, (fuel - 1) as nat) {
                Ancestry::Path(rest) => Ancestry::Path(seq![k] + rest),
                other => other,
            },
        }
    }
}

/// The texts of the system Messages of a path (root first).
pub open spec fn instruction_texts(messages: Seq<MessageRecord>, path: Seq<int>) -> Seq<Seq<char>>
    decreases path.len(),
{
    if path.len() == 0 {
        Seq::empty()
    } else {
        let m = messages[path.last()];
        let rest = instruction_texts(messages, path.drop_last());
        match m.text {
            Some(t) => if m.role@ == "system"@ {
                rest.push(t@)
            } else {
                rest
            },
            None => rest,
        }
    }
}

/// One line per non-system Message with text: its role, a colon, its text.
pub open spec fn conversation_lines(messages: Seq<MessageRecord>, path: Seq<int>) -> Seq<char>
    decreases path.len(),
{
    if path.len() == 0 {
        Seq::empty()
    } else {
        let m = messages[path.last()];
        let rest = conversation_lines(messages, path.drop_last());
        match m.text {
            Some(t) => if m.role@ == "system"@ {
                rest
            } else {
                rest + m.role@ + ": "@ + t@ + "\n"@
            },
            None => rest,
        }
    }
}

/// Texts joined with a blank line between them.
pub open spec fn joined_paragraphs(texts: Seq<Seq<char>>) -> Seq<char>
    decreases texts.len(),
{
    if texts.len() == 0 {
        Seq::empty()
    } else if texts.len() == 1 {
        texts[0]
    } else {
        joined_paragraphs(texts.drop_last()) + "\n\n"@ + texts.last()
    }
}

/// The position of the first Message with id `id`.
pub fn find_message(messages: &Vec<MessageRecord>, id: &str) -> (found: Option<usize>)
    ensures
        match found {
            Some(k) => first_message(messages@, id@, k as int) && k == choose|c: int|
                first_message(messages@, id@, c),
            None => !(exists|c: int| first_message(messages@, id@, c)),
        },
{
    let mut k: usize = 0;
    while k < messages.len()
        invariant
            k <= messages@.len(),
            forall|j: int| 0 <= j < k ==> (#[trigger] messages@[j]).id@ != id@,
        decreases messages.len() - k,
    {
        if str_equals(messages[k].id.as_str(), id) {
            proof {
                assert(first_message(messages@, id@, k as int));
                let c = choose|c: int| first_message(messages@, id@, c);
                assert(c == k) by {
                    if c < k {
                        assert(messages@[c].id@ != id@);
                    } else if c > k {
                        assert(messages@[k as int].id@ != id@);
                    }
                }
            }
            return Some(k);
        }
        k = k + 1;
    }
    proof {
        if exists|c: int| first_message(messages@, id@, c) {
            let c = choose|c: int| first_message(messages@, id@, c);
            assert(messages@[c].id@ != id@);
        }
    }
    None
}

/// The path from `head` back to its root, root first, as positions.
fn message_path(messages: &Vec<MessageRecord>, head: &str) -> (result: Result<Vec<usize>, ControlError>)
    requires
        messages@.len() < usize::MAX,
        !(ancestry(messages@, head@, (messages@.len() + 1) as nat) is Endless),
    ensures
        match (result, ancestry(messages@, head@, (messages@.len() + 1) as nat)) {
            (Ok(path), Ancestry::Path(p)) => path@.len() == p.len() && (forall|i: int|
                0 <= i < p.len() ==> path@[i] as int == #[trigger] p[p.len() - 1 - i]) && (forall|i: int|
                0 <= i < path@.len() ==> (#[trigger] path@[i]) < messages@.len()),
            (Err(e), Ancestry::Missing) => is_error(
                e,
                ErrorCode::MessageNotFound,
                "message path is incomplete"@,
                false,
            ),
            _ => false,
        },
{
    let fuel_total: usize = messages.len() + 1;
    let mut walked: Vec<usize> = Vec::new();
    let mut current: String = String::from_str(head);
    let mut fuel: usize = fuel_total;
    loop
        invariant
            fuel <= fuel_total,
            fuel_total == messages@.len() + 1,
            ({
                let whole = ancestry(messages@, head@, fuel_total as nat);
                let rest = ancestry(messages@, current@, fuel as nat);
                &&& !(whole is Endless)
                &&& forall|j: int| 0 <= j < walked@.len() ==> (#[trigger] walked@[j]) < messages@.len()
                &&& match rest {
                    Ancestry::Path(p) => whole == Ancestry::Path(
                        walked@.map_values(|x: usize| x as int) + p,
                    ),
                    other => whole == other,
                }
            }),
        decreases fuel,
    {
        if fuel == 0 {
            return Err(control_error(ErrorCode::MessageNotFound, "message path is incomplete", false));
        }
        let k = match find_message(messages, current.as_str()) {
            Some(k) => k,
            None => {
                return Err(
                    control_error(ErrorCode::MessageNotFound, "message path is incomplete", false),
                );
            },
        };
        let ghost before = walked@;
        walked.push(k);
        proof {
            assert forall|j: int| 0 <= j < walked@.len() implies (#[trigger] walked@[j]) < messages@.len() by {
                if j < before.len() {
                    assert(walked@[j] == before[j]);
                }
            }
        }
        proof {
            assert(walked@.map_values(|x: usize| x as int) =~= before.map_values(|x: usize| x as int).push(
                k as int,
            ));
        }
        match &messages[k].parent_message_id {
            None => {
                proof {
                    assert(walked@.map_values(|x: usize| x as int) =~= before.map_values(
                        |x: usize| x as int,
                    ) + seq![k as int]);
                }
                let mut path: Vec<usize> = Vec::new();
                let mut i: usize = walked.len();
                while i > 0
                    invariant
                        i <= walked@.len(),
                        path@.len() == walked@.len() - i,
                        forall|j: int| 0 <= j < walked@.len() ==> (#[trigger] walked@[j]) < messages@.len(),
                        forall|j: int| 0 <= j < path@.len() ==> path@[j] == walked@[walked@.len() - 1 - j],
                        forall|j: int| 0 <= j < path@.len() ==> (#[trigger] path@[j]) < messages@.len(),
                    decreases i,
                {
                    i = i - 1;
                    path.push(walked[i]);
                }
                return Ok(path);
            },
            Some(parent) => {
                proof {
                    let whole = ancestry(messages@, head@, fuel_total as nat);
                    match ancestry(messages@, parent@, (fuel - 1) as nat) {
                        Ancestry::Path(p) => {
                            assert(walked@.map_values(|x: usize| x as int) + p =~= before.map_values(
                                |x: usize| x as int,
                            ) + (seq![k as int] + p));
                        },
                        _ => {},
                    }
                }
                current = parent.clone();
                fuel = fuel - 1;
            },
        }
    }
}

/// What building the prompt of a Codex Run gives (see `codex_prompt`).
pub open spec fn prompt_built(
    messages: &Vec<MessageRecord>,
    head_id: Seq<char>,
    result: Result< (Option<String>, String), ControlError, >,
) -> bool {
    match (result, ancestry(messages@, head_id, (messages@.len() + 1) as nat)) {
        (Ok((instructions, prompt)), Ancestry::Path(p)) => {
            let root_first = Seq::new(p.len(), |i: int| p[p.len() - 1 - i]);
            let system = instruction_texts(messages@, root_first);
            &&& prompt@ == "Conversation:\n"@ + conversation_lines(messages@, root_first)
            &&& match instructions {
                Some(text) => system.len() > 0 && text@ == joined_paragraphs(system),
                None => system.len() == 0,
            }
        },
        (Err(e), Ancestry::Missing) => is_error(
            e,
            ErrorCode::MessageNotFound,
            "message path is incomplete"@,
            false,
        ),
        _ => false,
    }
}

/// The system instructions and the conversation text of the path that ends
/// at `head`: instructions are the system Messages' texts joined by blank
/// lines (none when there are none); the conversation is
/// `Conversation:` followed by one `role: text` line per other Message with
/// text, root first. A missing Message on the way is an error.
pub fn codex_prompt(messages: &Vec<MessageRecord>, head_id: &str) -> (result: Result<
    (Option<String>, String),
    ControlError,
>)
    requires
        messages@.len() < usize::MAX,
        !(ancestry(messages@, head_id@, (messages@.len() + 1) as nat) is Endless),
    ensures
        prompt_built(
            messages,
            head_id@,
            result,
        ),
{
    let path = match message_path(messages, head_id) {
        Ok(path) => path,
        Err(e) => return Err(e),
    };
    let ghost p = match ancestry(messages@, head_id@, (messages@.len() + 1) as nat) {
        Ancestry::Path(p) => p,
        _ => Seq::empty(),
    };
    let ghost root_first = Seq::new(p.len(), |i: int| p[p.len() - 1 - i]);
    let mut instructions = String::new();
    let mut count: usize = 0;
    let mut prompt = String::from_str("Conversation:\n");
    let mut i: usize = 0;
    while i < path.len()
        invariant
            i <= path@.len(),
            path@.len() == root_first.len(),
            forall|j: int| 0 <= j < path@.len() ==> path@[j] as int == #[trigger] root_first[j],
            forall|j: int| 0 <= j < root_first.len() ==> 0 <= #[trigger] root_first[j] < messages@.len(),
            prompt@ == "Conversation:\n"@ + conversation_lines(messages@, root_first.take(i as int)),
            count == instruction_texts(messages@, root_first.take(i as int)).len(),
            count <= i,
            instructions@ == joined_paragraphs(instruction_texts(messages@, root_first.take(i as int))),
        decreases path.len() - i,
    {
        proof {
            assert(root_first.take(i + 1).drop_last() =~= root_first.take(i as int));
            assert(root_first.take(i + 1).last() == root_first[i as int]);
        }
        let m = &messages[path[i]];
        match &m.text {
            Some(t) => {
                if str_equals(m.role.as_str(), "system") {
                    proof {
                        let rest = instruction_texts(messages@, root_first.take(i as int));
                        assert(rest.push(t@).drop_last() =~= rest);
                        if rest.len() == 0 {
                            assert(joined_paragraphs(rest) =~= Seq::<char>::empty());
                        }
                    }
                    if count > 0 {
                        push_str(&mut instructions, "\n\n");
                    }
                    push_str(&mut instructions, t.as_str());
                    count = count + 1;
                } else {
                    push_str(&mut prompt, m.role.as_str());
                    push_str(&mut prompt, ": ");
                    push_str(&mut prompt, t.as_str());
                    push_str(&mut prompt, "\n");
                }
            },
            None => {},
        }
        i = i + 1;
    }
    proof {
        assert(root_first.take(path@.len() as int) =~= root_first);
    }
    if count == 0 {
        Ok((None, prompt))
    } else {
        Ok((Some(instructions), prompt))
    }
}

/// How many Runs belong to Session `session_id`.
pub open spec fn session_run_count(runs: Seq<RunRecord>, session_id: Seq<char>) -> nat
    decreases runs.len(),
{
    if runs.len() == 0 {
        0
    } else {
        session_run_count(runs.drop_last(), session_id) + if opt_view(runs.last().session_id)
            == Some(session_id) {
            1nat
        } else {
            0nat
        }
    }
}

/// The Session has just finished its first interaction: its head is an
/// assistant Message and exactly one Run belongs to it.
pub open spec fn first_completed_interaction(
    messages: Seq<MessageRecord>,
    runs: Seq<RunRecord>,
    session: SessionRecord,
) -> bool {
    &&& exists|c: int| first_message(messages, session.current_message_id@, c)
    &&& messages[choose|c: int| first_message(messages, session.current_message_id@, c)].role@
        == "assistant"@
    &&& session_run_count(runs, session.id@) == 1
}

/// Whether the Session has just finished its first interaction (see
/// `first_completed_interaction`).
pub fn is_first_completed_interaction(
    messages: &Vec<MessageRecord>,
    runs: &Vec<RunRecord>,
    session: &SessionRecord,
) -> (first: bool)
    ensures
        first == first_completed_interaction(messages@, runs@, *session),
{
    let head_is_assistant = match find_message(messages, session.current_message_id.as_str()) {
        Some(m) => str_equals(messages[m].role.as_str(), "assistant"),
        None => false,
    };
    let mut count: usize = 0;
    let mut k: usize = 0;
    while k < runs.len()
        invariant
            k <= runs@.len(),
            count == session_run_count(runs@.take(k as int), session.id@),
            count <= k,
        decreases runs.len() - k,
    {
        proof {
            assert(runs@.take(k + 1).drop_last() =~= runs@.take(k as int));
        }
        let mine = match &runs[k].session_id {
            Some(id) => str_equals(id.as_str(), session.id.as_str()),
            None => false,
        };
        if mine {
            count = count + 1;
        }
        k = k + 1;
    }
    proof {
        assert(runs@.take(runs@.len() as int) =~= runs@);
    }
    head_is_assistant && count == 1
}

} // verus!
