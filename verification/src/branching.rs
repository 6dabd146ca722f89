//! New Sessions: creating one at a Message of a Project, forking a
//! conversation with a first user Message, and deriving one from another
//! Session.
use vstd::prelude::*;
use crate::agents::{agent_bound, agent_for_session, bound_agent_id, enabled_agent_at};
use crate::catalog::{has_enabled_agent, require_agent, AgentRecord};
use crate::conversation::{
    find_message, first_message, message_sent, send_message, GitBaseline, MessageRecord,
    RunCatalog,
};
use crate::errors::{control_error, is_error, ControlError, ErrorCode, Outcome};
use crate::json::opt_view;
use crate::permissions::PermissionPolicyLimits;
use crate::resolution::{find_project, first_project, has_project};
use crate::runs::{ProjectRecord, SessionRecord, WorkingSet};
use crate::sessions::{find_session, first_session, session_versions_below_max};
use crate::text::{is_blank, is_blank_str, str_equals};

verus! {

/// Some Session has id `id`.
pub open spec fn session_exists(sessions: Seq<SessionRecord>, id: Seq<char>) -> bool {
    exists|k: int| 0 <= k < sessions.len() && sessions[k].id@ == id
}

fn has_session_id(sessions: &Vec<SessionRecord>, id: &str) -> (found: bool)
    ensures
        found == session_exists(sessions@, id@),
{
    let mut k: usize = 0;
    while k < sessions.len()
        invariant
            k <= sessions@.len(),
            forall|j: int| 0 <= j < k ==> (#[trigger] sessions@[j]).id@ != id@,
        decreases sessions.len() - k,
    {
        if str_equals(sessions[k].id.as_str(), id) {
            return true;
        }
        k = k + 1;
    }
    false
}

/// The checks of creating Session `id` in Project `project_id` at a Message
/// (the Project's root Message when none is given), in order: the id is not
/// blank and unused, the Project exists, the Agent is enabled, the Message
/// exists and belongs to the Project. On success, the positions of the
/// Project, of the Agent and of the Message.
pub open spec fn creation_check(
    sessions: Seq<SessionRecord>,
    projects: Seq<ProjectRecord>,
    agents: Seq<AgentRecord>,
    messages: Seq<MessageRecord>,
    id: Seq<char>,
    project_id: Seq<char>,
    agent_id: Seq<char>,
    at_message_id: Option<Seq<char>>,
) -> Outcome<(int, int, int)> {
    if is_blank(id) || session_exists(sessions, id) {
        Err((ErrorCode::InvalidSession, "session id is empty or already exists"@, false))
    } else if !has_project(projects, project_id) {
        Err((ErrorCode::InvalidProject, "project not found"@, false))
    } else if !has_enabled_agent(agents, agent_id) {
        Err((ErrorCode::AgentNotFound, "enabled agent not found"@, false))
    } else {
        match branch_check(messages, branch_head(projects, project_id, at_message_id), project_id) {
            Err(e) => Err(e),
            Ok(m) => Ok(
                (
                    choose|c: int| first_project(projects, project_id, c),
                    enabled_agent_at(agents, agent_id),
                    m,
                ),
            ),
        }
    }
}

/// The Message a new Session of Project `project_id` starts at: the given
/// one, or the Project's root Message.
pub open spec fn branch_head(
    projects: Seq<ProjectRecord>,
    project_id: Seq<char>,
    at_message_id: Option<Seq<char>>,
) -> Seq<char> {
    match at_message_id {
        Some(h) => h,
        None => projects[choose|c: int| first_project(projects, project_id, c)].root_message_id@,
    }
}

/// The Message `head` must exist and belong to Project `project_id`; on
/// success, the position of the first Message with that id.
pub open spec fn branch_check(messages: Seq<MessageRecord>, head: Seq<char>, project_id: Seq<char>) -> Outcome<
    int,
> {
    if !(exists|c: int| first_message(messages, head, c)) {
        Err((ErrorCode::MessageNotFound, "branch message not found"@, false))
    } else {
        let m = choose|c: int| first_message(messages, head, c);
        if messages[m].project_id@ != project_id {
            Err((ErrorCode::SessionMessageProjectMismatch, "branch message belongs to another project"@, false))
        } else {
            Ok(m)
        }
    }
}

/// Creating Session `id` with the positions `c` of `creation_check` turns
/// the Sessions and Agents `old_*` into `new_*`: the Agent is bound to the
/// Session (see `agent_bound`), and a new, unnamed, untitled, active Session
/// at version 1 whose head is the Message is appended.
pub open spec fn session_created(
    old_sessions: Seq<SessionRecord>,
    new_sessions: Seq<SessionRecord>,
    old_agents: Seq<AgentRecord>,
    new_agents: Seq<AgentRecord>,
    messages: Seq<MessageRecord>,
    c: (int, int, int),
    id: Seq<char>,
    project_id: Seq<char>,
) -> bool {
    let session = new_sessions.last();
    &&& agent_bound(old_agents, new_agents, c.1, id)
    &&& new_sessions == old_sessions.push(session)
    &&& session.id@ == id
    &&& session.project_id@ == project_id
    &&& session.agent_id@ == bound_agent_id(old_agents, new_agents, c.1, id)
    &&& session.name@.len() == 0
    &&& session.title.is_none()
    &&& session.description@.len() == 0
    &&& !session.title_generation_started
    &&& !session.archived
    &&& session.current_message_id@ == messages[c.2].id@
    &&& session.active_run_id.is_none()
    &&& session.version == 1
}

/// What creating a Session does (see `create_session`).
pub open spec fn session_creation(
    old_sessions: Vec<SessionRecord>,
    new_sessions: Vec<SessionRecord>,
    projects: &Vec<ProjectRecord>,
    old_agents: Vec<AgentRecord>,
    new_agents: Vec<AgentRecord>,
    messages: &Vec<MessageRecord>,
    id: String,
    project_id: String,
    agent_id: Seq<char>,
    at_message_id: Option<String>,
    result: Result<usize, ControlError>,
) -> bool {
    match (
        result,
        creation_check(
            old_sessions@,
            projects@,
            old_agents@,
            messages@,
            id@,
            project_id@,
            agent_id,
            opt_view(at_message_id),
        ),
    ) {
        (Ok(k), Ok(c)) => k == old_sessions@.len() && session_created(
            old_sessions@,
            new_sessions@,
            old_agents@,
            new_agents@,
            messages@,
            c,
            id@,
            project_id@,
        ),
        (Err(e), Err(spec)) => is_error(e, spec.0, spec.1, spec.2) && new_sessions == old_sessions && new_agents == old_agents,
        _ => false,
    }
}

/// Creates a Session (see `creation_check` and `session_created`) and
/// returns its position. On an error nothing changes.
pub fn create_session(
    sessions: &mut Vec<SessionRecord>,
    projects: &Vec<ProjectRecord>,
    agents: &mut Vec<AgentRecord>,
    messages: &Vec<MessageRecord>,
    id: String,
    project_id: String,
    agent_id: &str,
    at_message_id: Option<String>,
) -> (result: Result<usize, ControlError>)
    ensures
        session_creation(
            *old(sessions),
            *final(sessions),
            projects,
            *old(agents),
            *final(agents),
            messages,
            id,
            project_id,
            agent_id@,
            at_message_id,
            result,
        ),
{
    if is_blank_str(id.as_str()) || has_session_id(sessions, id.as_str()) {
        return Err(
            control_error(ErrorCode::InvalidSession, "session id is empty or already exists", false),
        );
    }
    let p = match find_project(projects, project_id.as_str()) {
        Some(p) => p,
        None => return Err(control_error(ErrorCode::InvalidProject, "project not found", false)),
    };
    match require_agent(agents, agent_id) {
        Ok(_) => {},
        Err(e) => return Err(e),
    }
    let head = match at_message_id {
        Some(h) => h,
        None => projects[p].root_message_id.clone(),
    };
    let m = match find_message(messages, head.as_str()) {
        Some(m) => m,
        None => return Err(control_error(ErrorCode::MessageNotFound, "branch message not found", false)),
    };
    if !str_equals(messages[m].project_id.as_str(), project_id.as_str()) {
        return Err(
            control_error(
                ErrorCode::SessionMessageProjectMismatch,
                "branch message belongs to another project",
                false,
            ),
        );
    }
    let bound = match agent_for_session(agents, agent_id, id.as_str()) {
        Ok(b) => b,
        Err(e) => return Err(e),
    };
    let ghost before = sessions@;
    sessions.push(
        SessionRecord {
            id,
            project_id,
            agent_id: bound,
            name: String::new(),
            title: None,
            description: String::new(),
            title_generation_started: false,
            archived: false,
            current_message_id: head,
            active_run_id: None,
            version: 1,
        },
    );
    proof {
        assert(sessions@ =~= before.push(sessions@.last()));
    }
    Ok(sessions.len() - 1)
}

/// What a new conversation names: the new Session, its Project and Agent,
/// the Message it branches from, and its first user text.
#[derive(Debug)]
pub struct ForkSessionInput {
    pub id: String,
    pub project_id: String,
    pub agent_id: String,
    pub at_message_id: String,
    pub text: String,
}

/// `mid` is `old` with the Session of `input` created (see
/// `session_created`), the Agents going from `old_agents` to `new_agents`.
pub open spec fn forked_from(
    old: WorkingSet,
    mid: WorkingSet,
    old_agents: Seq<AgentRecord>,
    new_agents: Seq<AgentRecord>,
    messages: Seq<MessageRecord>,
    c: (int, int, int),
    input: ForkSessionInput,
) -> bool {
    &&& session_created(
        old.sessions@,
        mid.sessions@,
        old_agents,
        new_agents,
        messages,
        c,
        input.id@,
        input.project_id@,
    )
    &&& mid.projects == old.projects
    &&& mid.runs == old.runs
    &&& mid.journals == old.journals
}

/// What forking a conversation does: the Session of `input` is created at
/// its Message (see `creation_check` and `session_created`), then the user
/// text is sent in it (see `message_sent`), from the state with the Session
/// created. When either is refused, nothing is kept: the state is as before
/// (a refused Message undoes the creation).
pub open spec fn fork_outcome(
    old_state: WorkingSet,
    new_state: WorkingSet,
    old_messages: Seq<MessageRecord>,
    new_messages: Seq<MessageRecord>,
    old_credentials: Seq<(String, String)>,
    new_credentials: Seq<(String, String)>,
    old_catalog: RunCatalog,
    new_catalog: RunCatalog,
    input: ForkSessionInput,
    git_baseline: GitBaseline,
    limits: PermissionPolicyLimits,
    result: Result<usize, ControlError>,
) -> bool {
    &&& new_catalog.settings == old_catalog.settings
    &&& new_catalog.providers == old_catalog.providers
    &&& new_catalog.provider_credentials == old_catalog.provider_credentials
    &&& match creation_check(
        old_state.sessions@,
        old_state.projects@,
        old_catalog.agents@,
        old_messages,
        input.id@,
        input.project_id@,
        input.agent_id@,
        Some(input.at_message_id@),
    ) {
        Err(spec) => {
            &&& result matches Err(e) && is_error(e, spec.0, spec.1, spec.2)
            &&& new_state == old_state
            &&& new_messages == old_messages
            &&& new_credentials == old_credentials
            &&& new_catalog.agents@ == old_catalog.agents@
        },
        Ok(c) => match result {
            Ok(_) => exists|mid: WorkingSet|
                #[trigger] forked_from(
                    old_state,
                    mid,
                    old_catalog.agents@,
                    new_catalog.agents@,
                    old_messages,
                    c,
                    input,
                ) && message_sent(
                    mid,
                    new_state,
                    old_messages,
                    new_messages,
                    old_credentials,
                    new_credentials,
                    new_catalog,
                    input.id@,
                    input.text@,
                    git_baseline,
                    limits,
                    result,
                ),
            Err(_) => {
                &&& exists|mid: WorkingSet, mid_catalog: RunCatalog|
                    #[trigger] forked_from(
                        old_state,
                        mid,
                        old_catalog.agents@,
                        mid_catalog.agents@,
                        old_messages,
                        c,
                        input,
                    ) && mid_catalog.settings == old_catalog.settings && mid_catalog.providers
                        == old_catalog.providers && mid_catalog.provider_credentials
                        == old_catalog.provider_credentials && message_sent(
                        mid,
                        mid,
                        old_messages,
                        old_messages,
                        old_credentials,
                        old_credentials,
                        mid_catalog,
                        input.id@,
                        input.text@,
                        git_baseline,
                        limits,
                        result,
                    )
                &&& new_state.sessions@ == old_state.sessions@
                &&& new_state.projects == old_state.projects
                &&& new_state.runs == old_state.runs
                &&& new_state.journals == old_state.journals
                &&& new_messages == old_messages
                &&& new_credentials == old_credentials
                &&& new_catalog.agents@ == old_catalog.agents@
            },
        },
    }
}

/// Starts a new conversation: creates the Session of `input` at its Message
/// and sends its text there (see `fork_outcome`). Returns the position of
/// the queued Run.
pub fn fork_session(
    state: &mut WorkingSet,
    messages: &mut Vec<MessageRecord>,
    run_credentials: &mut Vec<(String, String)>,
    catalog: &mut RunCatalog,
    input: ForkSessionInput,
    git_baseline: &GitBaseline,
    limits: PermissionPolicyLimits,
) -> (result: Result<usize, ControlError>)
    ensures
        fork_outcome(
            *old(state),
            *final(state),
            old(messages)@,
            final(messages)@,
            old(run_credentials)@,
            final(run_credentials)@,
            *old(catalog),
            *final(catalog),
            input,
            *git_baseline,
            limits,
            result,
        ),
{
    let ghost old_state = *state;
    let ghost old_agents = catalog.agents@;
    let agent_count = catalog.agents.len();
    let ghost given = input;
    let ForkSessionInput { id, project_id, agent_id, at_message_id, text } = input;
    match create_session(
        &mut state.sessions,
        &state.projects,
        &mut catalog.agents,
        messages,
        id.clone(),
        project_id,
        agent_id.as_str(),
        Some(at_message_id),
    ) {
        Ok(_) => {},
        Err(e) => return Err(e),
    }
    let ghost mid = *state;
    proof {
        let c = creation_check(
            old_state.sessions@,
            old_state.projects@,
            old_agents,
            messages@,
            given.id@,
            given.project_id@,
            given.agent_id@,
            Some(given.at_message_id@),
        )->Ok_0;
        assert(forked_from(old_state, mid, old_agents, catalog.agents@, messages@, c, given));
        assert forall|k: int|
            0 <= k < mid.sessions@.len() && (#[trigger] mid.sessions@[k]).id@ == given.id@ implies mid.sessions@[k].version
            < u64::MAX by {
            if k < old_state.sessions@.len() {
                assert(mid.sessions@[k] == old_state.sessions@[k]);
                assert(!session_exists(old_state.sessions@, given.id@));
            }
        }
    }
    let ghost mid_catalog = *catalog;
    match send_message(state, messages, run_credentials, catalog, id, text, git_baseline, limits) {
        Ok(r) => Ok(r),
        Err(e) => {
            state.sessions.pop();
            catalog.agents.truncate(agent_count);
            proof {
                assert(state.sessions@ =~= old_state.sessions@);
                assert(catalog.agents@ =~= old_agents);
            }
            Err(e)
        },
    }
}

/// No Message has `id` as its parent.
pub open spec fn is_leaf(messages: Seq<MessageRecord>, id: Seq<char>) -> bool {
    !exists|k: int| 0 <= k < messages.len() && opt_view(#[trigger] messages[k].parent_message_id) == Some(id)
}

fn has_child(messages: &Vec<MessageRecord>, id: &str) -> (found: bool)
    ensures
        found == !is_leaf(messages@, id@),
{
    let mut k: usize = 0;
    while k < messages.len()
        invariant
            k <= messages@.len(),
            forall|j: int| 0 <= j < k ==> opt_view(#[trigger] messages@[j].parent_message_id) != Some(id@),
        decreases messages.len() - k,
    {
        let child = match &messages[k].parent_message_id {
            Some(parent) => str_equals(parent.as_str(), id),
            None => false,
        };
        if child {
            return true;
        }
        k = k + 1;
    }
    false
}

/// The checks of deriving a Session from Session `source_session_id`, in
/// order: the text is not blank, the new id is not blank and unused, the
/// Project exists, the Agent is enabled, the Message exists in the Project
/// (see `branch_check`), and the source Session exists in the Project. On
/// success, whether the source Session is reused: it must be locked for the
/// command, idle, at the Message with no reply yet, and on the same Agent.
pub open spec fn derive_check(
    sessions: Seq<SessionRecord>,
    projects: Seq<ProjectRecord>,
    agents: Seq<AgentRecord>,
    messages: Seq<MessageRecord>,
    input: ForkSessionInput,
    source_session_id: Seq<char>,
    source_locked: bool,
) -> Outcome<bool> {
    if is_blank(input.text@) {
        Err((ErrorCode::InvalidMessageRole, "message text is required"@, false))
    } else if is_blank(input.id@) || session_exists(sessions, input.id@) {
        Err((ErrorCode::InvalidSession, "session id is empty or already exists"@, false))
    } else if !has_project(projects, input.project_id@) {
        Err((ErrorCode::InvalidProject, "project not found"@, false))
    } else if !has_enabled_agent(agents, input.agent_id@) {
        Err((ErrorCode::AgentNotFound, "enabled agent not found"@, false))
    } else {
        match branch_check(messages, input.at_message_id@, input.project_id@) {
            Err(e) => Err(e),
            Ok(_) => if !(exists|c: int| first_session(sessions, source_session_id, c)) {
                Err((ErrorCode::SessionNotFound, "session not found"@, false))
            } else {
                let source = sessions[choose|c: int| first_session(sessions, source_session_id, c)];
                if source.project_id@ != input.project_id@ {
                    Err(
                        (
                            ErrorCode::SessionMessageProjectMismatch,
                            "source Session belongs to another project"@,
                            false,
                        ),
                    )
                } else {
                    Ok(
                        source_locked && source.active_run_id.is_none() && source.current_message_id@
                            == input.at_message_id@ && source.agent_id@ == input.agent_id@ && is_leaf(
                            messages,
                            input.at_message_id@,
                        ),
                    )
                }
            },
        }
    }
}

/// What deriving a Session does (see `derive_session`).
pub open spec fn derive_outcome(
    old_state: WorkingSet,
    new_state: WorkingSet,
    old_messages: Vec<MessageRecord>,
    new_messages: Vec<MessageRecord>,
    old_run_credentials: Vec<(String, String)>,
    new_run_credentials: Vec<(String, String)>,
    old_catalog: RunCatalog,
    new_catalog: RunCatalog,
    input: ForkSessionInput,
    source_session_id: Seq<char>,
    source_locked: bool,
    git_baseline: &GitBaseline,
    limits: PermissionPolicyLimits,
    result: Result<usize, ControlError>,
) -> bool {
    match derive_check(
        old_state.sessions@,
        old_state.projects@,
        old_catalog.agents@,
        old_messages@,
        input,
        source_session_id,
        source_locked,
    ) {
        Err(spec) => {
            &&& result matches Err(e) && is_error(e, spec.0, spec.1, spec.2)
            &&& new_state == old_state
            &&& new_messages@ == old_messages@
            &&& new_run_credentials@ == old_run_credentials@
            &&& new_catalog == old_catalog
        },
        Ok(true) => new_catalog == old_catalog && message_sent(
            old_state,
            new_state,
            old_messages@,
            new_messages@,
            old_run_credentials@,
            new_run_credentials@,
            old_catalog,
            source_session_id,
            input.text@,
            *git_baseline,
            limits,
            result,
        ),
        Ok(false) => fork_outcome(
            old_state,
            new_state,
            old_messages@,
            new_messages@,
            old_run_credentials@,
            new_run_credentials@,
            old_catalog,
            new_catalog,
            input,
            *git_baseline,
            limits,
            result,
        ),
    }
}

/// Derives a Session from another one (see `derive_check`): when the source
/// Session is reused, the text is sent in it (see `message_sent`); otherwise
/// a new conversation is forked (see `fork_outcome`). Returns the position
/// of the queued Run. On a refused check nothing changes.
pub fn derive_session(
    state: &mut WorkingSet,
    messages: &mut Vec<MessageRecord>,
    run_credentials: &mut Vec<(String, String)>,
    catalog: &mut RunCatalog,
    input: ForkSessionInput,
    source_session_id: &str,
    source_locked: bool,
    git_baseline: &GitBaseline,
    limits: PermissionPolicyLimits,
) -> (result: Result<usize, ControlError>)
    requires
        session_versions_below_max(old(state).sessions@, source_session_id@),
    ensures
        derive_outcome(
            *old(state),
            *final(state),
            *old(messages),
            *final(messages),
            *old(run_credentials),
            *final(run_credentials),
            *old(catalog),
            *final(catalog),
            input,
            source_session_id@,
            source_locked,
            git_baseline,
            limits,
            result,
        ),
{
    if is_blank_str(input.text.as_str()) {
        return Err(control_error(ErrorCode::InvalidMessageRole, "message text is required", false));
    }
    if is_blank_str(input.id.as_str()) || has_session_id(&state.sessions, input.id.as_str()) {
        return Err(
            control_error(ErrorCode::InvalidSession, "session id is empty or already exists", false),
        );
    }
    match find_project(&state.projects, input.project_id.as_str()) {
        Some(_) => {},
        None => return Err(control_error(ErrorCode::InvalidProject, "project not found", false)),
    }
    match require_agent(&catalog.agents, input.agent_id.as_str()) {
        Ok(_) => {},
        Err(e) => return Err(e),
    }
    let m = match find_message(messages, input.at_message_id.as_str()) {
        Some(m) => m,
        None => return Err(control_error(ErrorCode::MessageNotFound, "branch message not found", false)),
    };
    if !str_equals(messages[m].project_id.as_str(), input.project_id.as_str()) {
        return Err(
            control_error(
                ErrorCode::SessionMessageProjectMismatch,
                "branch message belongs to another project",
                false,
            ),
        );
    }
    let s = match find_session(&state.sessions, source_session_id) {
        Some(s) => s,
        None => return Err(control_error(ErrorCode::SessionNotFound, "session not found", false)),
    };
    if !str_equals(state.sessions[s].project_id.as_str(), input.project_id.as_str()) {
        return Err(
            control_error(
                ErrorCode::SessionMessageProjectMismatch,
                "source Session belongs to another project",
                false,
            ),
        );
    }
    let reuse = source_locked && state.sessions[s].active_run_id.is_none() && str_equals(
        state.sessions[s].current_message_id.as_str(),
        input.at_message_id.as_str(),
    ) && str_equals(state.sessions[s].agent_id.as_str(), input.agent_id.as_str()) && !has_child(
        messages,
        input.at_message_id.as_str(),
    );
    if reuse {
        send_message(
            state,
            messages,
            run_credentials,
            catalog,
            String::from_str(source_session_id),
            input.text,
            git_baseline,
            limits,
        )
    } else {
        fork_session(state, messages, run_credentials, catalog, input, git_baseline, limits)
    }
}

} // verus!
