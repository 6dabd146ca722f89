//! Exporting a Project into a portable archive, and importing one.
use vstd::prelude::*;
use crate::archive::{
    archived_agent_invalid, export_check, providers_check, validate_project_export, ProjectExport,
    PROJECT_EXPORT_VERSION,
};
use crate::catalog::{
    agent_exists, config_view, has_agent_id, copy_provider, find_agent, first_agent, first_provider, model_view, provider_view,
    AgentConfiguration, AgentProvider, AgentProviderView, AgentRecord, ProviderModel,
};
use crate::conversation::MessageRecord;
use crate::errors::{control_error, is_error, ControlError, ErrorCode, Outcome};
use crate::json::opt_view;
use crate::resolution::{find_project, first_project, has_project};
use crate::permissions::AgentMode;
use crate::runs::{ProjectRecord, SessionRecord, WorkingSet};
use crate::projects::{has_workdir, workdir_registered};
use crate::text::{str_equals, texts_equal};

verus! {

fn copy_text(t: &Option<String>) -> (c: Option<String>)
    ensures
        c == *t,
{
    match t {
        Some(s) => Some(s.clone()),
        None => None,
    }
}

/// A copy of a Message.
pub fn copy_message(m: &MessageRecord) -> (c: MessageRecord)
    ensures
        c == *m,
{
    MessageRecord {
        id: m.id.clone(),
        project_id: m.project_id.clone(),
        parent_message_id: copy_text(&m.parent_message_id),
        role: m.role.clone(),
        kind: m.kind.clone(),
        text: copy_text(&m.text),
        git_commit: copy_text(&m.git_commit),
        data: copy_text(&m.data),
        created_at: m.created_at,
    }
}

/// A copy of a Session.
pub fn copy_session(s: &SessionRecord) -> (c: SessionRecord)
    ensures
        c == *s,
{
    SessionRecord {
        id: s.id.clone(),
        project_id: s.project_id.clone(),
        agent_id: s.agent_id.clone(),
        name: s.name.clone(),
        title: copy_text(&s.title),
        description: s.description.clone(),
        title_generation_started: s.title_generation_started,
        archived: s.archived,
        current_message_id: s.current_message_id.clone(),
        active_run_id: copy_text(&s.active_run_id),
        version: s.version,
    }
}

/// A copy of a Project.
pub fn copy_project(p: &ProjectRecord) -> (c: ProjectRecord)
    ensures
        c == *p,
{
    ProjectRecord {
        id: p.id.clone(),
        name: p.name.clone(),
        workdir: p.workdir.clone(),
        root_message_id: p.root_message_id.clone(),
        repo_url: copy_text(&p.repo_url),
        base_commit: p.base_commit.clone(),
        default_agent_id: copy_text(&p.default_agent_id),
        revision: p.revision,
    }
}

/// A copy of an Agent.
pub fn copy_agent(a: &AgentRecord) -> (c: AgentRecord)
    ensures
        c == *a,
{
    AgentRecord {
        id: a.id.clone(),
        name: a.name.clone(),
        config: AgentConfiguration {
            provider_id: a.config.provider_id.clone(),
            model: a.config.model.clone(),
            reasoning_effort: copy_text(&a.config.reasoning_effort),
        },
        owner_session_id: copy_text(&a.owner_session_id),
        revision: a.revision,
        enabled: a.enabled,
    }
}

/// The Messages of Project `project_id`, in order.
pub open spec fn project_messages(messages: Seq<MessageRecord>, project_id: Seq<char>) -> Seq<MessageRecord> {
    messages.filter(|m: MessageRecord| m.project_id@ == project_id)
}

/// The Sessions of Project `project_id`, in order, none holding a Run.
pub open spec fn project_sessions(sessions: Seq<SessionRecord>, project_id: Seq<char>) -> Seq<SessionRecord> {
    sessions.filter(|s: SessionRecord| s.project_id@ == project_id).map_values(
        |s: SessionRecord| SessionRecord { active_run_id: None, ..s },
    )
}

/// The position of the first Project with id `id`.
pub open spec fn project_index(projects: Seq<ProjectRecord>, id: Seq<char>) -> int {
    choose|c: int| first_project(projects, id, c)
}

/// Agent id `id` is used by one of the Sessions or is the default Agent.
pub open spec fn agent_referenced(sessions: Seq<SessionRecord>, default_agent: Option<Seq<char>>, id: Seq<char>) -> bool {
    (exists|k: int| 0 <= k < sessions.len() && (#[trigger] sessions[k]).agent_id@ == id) || default_agent
        == Some(id)
}

/// Some of the Agents names provider `id`.
pub open spec fn provider_used(agents: Seq<AgentRecord>, id: Seq<char>) -> bool {
    exists|a: int| 0 <= a < agents.len() && (#[trigger] agents[a]).config.provider_id@ == id
}

/// `archive` is the export of Project `p` (a position in `state.projects`)
/// at source revision `revision`: the Project, its Messages and its Sessions
/// (released from their Runs), the Agents those Sessions or the Project's
/// default name, and the providers of those Agents.
pub open spec fn exported(
    archive: ProjectExport,
    state: WorkingSet,
    messages: Seq<MessageRecord>,
    agents: Seq<AgentRecord>,
    providers: Seq<AgentProviderView>,
    revision: u64,
    p: int,
) -> bool {
    let project = state.projects@[p];
    &&& archive.format_version == PROJECT_EXPORT_VERSION
    &&& archive.source_revision == revision
    &&& archive.project == project
    &&& archive.messages@ == project_messages(messages, project.id@)
    &&& archive.sessions@ == project_sessions(state.sessions@, project.id@)
    &&& archive.agents@ == agents.filter(
        |a: AgentRecord| agent_referenced(archive.sessions@, opt_view(project.default_agent_id), a.id@),
    )
    &&& archive.providers@.map_values(|q: AgentProvider| provider_view(q)) == providers.filter(
        |v: AgentProviderView| provider_used(archive.agents@, v.provider.id@),
    ).map_values(|v: AgentProviderView| provider_view(v.provider))
}

fn export_messages(messages: &Vec<MessageRecord>, project_id: &str) -> (out: Vec<MessageRecord>)
    ensures
        out@ == project_messages(messages@, project_id@),
{
    let ghost pred = |m: MessageRecord| m.project_id@ == project_id@;
    let mut out: Vec<MessageRecord> = Vec::new();
    let mut i: usize = 0;
    while i < messages.len()
        invariant
            i <= messages@.len(),
            pred == (|m: MessageRecord| m.project_id@ == project_id@),
            out@ == messages@.take(i as int).filter(pred),
        decreases messages.len() - i,
    {
        proof {
            assert(messages@.take(i + 1) =~= messages@.take(i as int).push(messages@[i as int]));
            messages@.take(i as int).lemma_filter_push(messages@[i as int], pred);
        }
        if str_equals(messages[i].project_id.as_str(), project_id) {
            out.push(copy_message(&messages[i]));
        }
        i = i + 1;
    }
    proof {
        assert(messages@.take(messages@.len() as int) =~= messages@);
    }
    out
}

fn export_sessions(sessions: &Vec<SessionRecord>, project_id: &str) -> (out: Vec<SessionRecord>)
    ensures
        out@ == project_sessions(sessions@, project_id@),
{
    let ghost pred = |s: SessionRecord| s.project_id@ == project_id@;
    let ghost release = |s: SessionRecord| SessionRecord { active_run_id: None, ..s };
    let mut out: Vec<SessionRecord> = Vec::new();
    let mut i: usize = 0;
    while i < sessions.len()
        invariant
            i <= sessions@.len(),
            pred == (|s: SessionRecord| s.project_id@ == project_id@),
            release == (|s: SessionRecord| SessionRecord { active_run_id: None, ..s }),
            out@ == sessions@.take(i as int).filter(pred).map_values(release),
        decreases sessions.len() - i,
    {
        proof {
            assert(sessions@.take(i + 1) =~= sessions@.take(i as int).push(sessions@[i as int]));
            sessions@.take(i as int).lemma_filter_push(sessions@[i as int], pred);
        }
        if str_equals(sessions[i].project_id.as_str(), project_id) {
            let mut copy = copy_session(&sessions[i]);
            copy.active_run_id = None;
            let ghost before = out@;
            out.push(copy);
            proof {
                let kept = sessions@.take(i as int).filter(pred);
                assert(out@ =~= kept.push(sessions@[i as int]).map_values(release));
            }
        }
        i = i + 1;
    }
    proof {
        assert(sessions@.take(sessions@.len() as int) =~= sessions@);
    }
    out
}

fn referenced(sessions: &Vec<SessionRecord>, default_agent: &Option<String>, id: &str) -> (found: bool)
    ensures
        found == agent_referenced(sessions@, opt_view(*default_agent), id@),
{
    let by_default = match default_agent {
        Some(d) => str_equals(d.as_str(), id),
        None => false,
    };
    if by_default {
        return true;
    }
    let mut k: usize = 0;
    while k < sessions.len()
        invariant
            k <= sessions@.len(),
            forall|j: int| 0 <= j < k ==> (#[trigger] sessions@[j]).agent_id@ != id@,
        decreases sessions.len() - k,
    {
        if str_equals(sessions[k].agent_id.as_str(), id) {
            return true;
        }
        k = k + 1;
    }
    false
}

fn export_agents(agents: &Vec<AgentRecord>, sessions: &Vec<SessionRecord>, default_agent: &Option<String>) -> (out:
    Vec<AgentRecord>)
    ensures
        out@ == agents@.filter(
            |a: AgentRecord| agent_referenced(sessions@, opt_view(*default_agent), a.id@),
        ),
{
    let ghost pred = |a: AgentRecord| agent_referenced(sessions@, opt_view(*default_agent), a.id@);
    let mut out: Vec<AgentRecord> = Vec::new();
    let mut i: usize = 0;
    while i < agents.len()
        invariant
            i <= agents@.len(),
            pred == (|a: AgentRecord| agent_referenced(sessions@, opt_view(*default_agent), a.id@)),
            out@ == agents@.take(i as int).filter(pred),
        decreases agents.len() - i,
    {
        proof {
            assert(agents@.take(i + 1) =~= agents@.take(i as int).push(agents@[i as int]));
            agents@.take(i as int).lemma_filter_push(agents@[i as int], pred);
        }
        if referenced(sessions, default_agent, agents[i].id.as_str()) {
            out.push(copy_agent(&agents[i]));
        }
        i = i + 1;
    }
    proof {
        assert(agents@.take(agents@.len() as int) =~= agents@);
    }
    out
}

fn uses_provider(agents: &Vec<AgentRecord>, id: &str) -> (found: bool)
    ensures
        found == provider_used(agents@, id@),
{
    let mut k: usize = 0;
    while k < agents.len()
        invariant
            k <= agents@.len(),
            forall|j: int| 0 <= j < k ==> (#[trigger] agents@[j]).config.provider_id@ != id@,
        decreases agents.len() - k,
    {
        if str_equals(agents[k].config.provider_id.as_str(), id) {
            return true;
        }
        k = k + 1;
    }
    false
}

fn export_providers(providers: &Vec<AgentProviderView>, agents: &Vec<AgentRecord>) -> (out: Vec<AgentProvider>)
    ensures
        out@.map_values(|q: AgentProvider| provider_view(q)) == providers@.filter(
            |v: AgentProviderView| provider_used(agents@, v.provider.id@),
        ).map_values(|v: AgentProviderView| provider_view(v.provider)),
{
    let ghost pred = |v: AgentProviderView| provider_used(agents@, v.provider.id@);
    let ghost view_of = |q: AgentProvider| provider_view(q);
    let ghost view_listed = |v: AgentProviderView| provider_view(v.provider);
    let mut out: Vec<AgentProvider> = Vec::new();
    let mut i: usize = 0;
    while i < providers.len()
        invariant
            i <= providers@.len(),
            pred == (|v: AgentProviderView| provider_used(agents@, v.provider.id@)),
            view_of == (|q: AgentProvider| provider_view(q)),
            view_listed == (|v: AgentProviderView| provider_view(v.provider)),
            out@.map_values(view_of) == providers@.take(i as int).filter(pred).map_values(view_listed),
        decreases providers.len() - i,
    {
        proof {
            assert(providers@.take(i + 1) =~= providers@.take(i as int).push(providers@[i as int]));
            providers@.take(i as int).lemma_filter_push(providers@[i as int], pred);
        }
        if uses_provider(agents, providers[i].provider.id.as_str()) {
            let copy = copy_provider(&providers[i].provider);
            let ghost before = out@;
            out.push(copy);
            proof {
                let kept = providers@.take(i as int).filter(pred);
                assert(out@.map_values(view_of) =~= before.map_values(view_of).push(view_of(copy)));
                assert(kept.push(providers@[i as int]).map_values(view_listed) =~= kept.map_values(
                    view_listed,
                ).push(view_listed(providers@[i as int])));
            }
        }
        i = i + 1;
    }
    proof {
        assert(providers@.take(providers@.len() as int) =~= providers@);
    }
    out
}

/// Exports Project `project_id` at source revision `source_revision` (see
/// `exported`); the archive must pass `export_check`. A missing Project is
/// refused with `InvalidProject`.
pub fn export_project(
    state: &WorkingSet,
    messages: &Vec<MessageRecord>,
    agents: &Vec<AgentRecord>,
    providers: &Vec<AgentProviderView>,
    source_revision: u64,
    project_id: &str,
) -> (result: Result<ProjectExport, ControlError>)
    ensures
        match result {
            Ok(made) => has_project(state.projects@, project_id@) && exported(
                made,
                *state,
                messages@,
                agents@,
                providers@,
                source_revision,
                project_index(state.projects@, project_id@),
            ) && export_check(made) is Ok,
            Err(e) => if has_project(state.projects@, project_id@) {
                exists|archive: ProjectExport|
                    #[trigger] exported(
                        archive,
                        *state,
                        messages@,
                        agents@,
                        providers@,
                        source_revision,
                        project_index(state.projects@, project_id@),
                    ) && (export_check(archive) matches Err(spec) && is_error(e, spec.0, spec.1, spec.2))
            } else {
                is_error(e, ErrorCode::InvalidProject, "project not found"@, false)
            },
        },
{
    let p = match find_project(&state.projects, project_id) {
        Some(p) => p,
        None => return Err(control_error(ErrorCode::InvalidProject, "project not found", false)),
    };
    let project = copy_project(&state.projects[p]);
    let exported_messages = export_messages(messages, project_id);
    let sessions = export_sessions(&state.sessions, project_id);
    let exported_agents = export_agents(agents, &sessions, &project.default_agent_id);
    let exported_providers = export_providers(providers, &exported_agents);
    let archive = ProjectExport {
        format_version: PROJECT_EXPORT_VERSION,
        source_revision,
        providers: exported_providers,
        project,
        agents: exported_agents,
        sessions,
        messages: exported_messages,
    };
    proof {
        assert(state.projects@[p as int].id@ == project_id@);
        assert(has_project(state.projects@, project_id@));
        assert(exported(archive, *state, messages@, agents@, providers@, source_revision, p as int));
    }
    proof {
        assert(p == project_index(state.projects@, project_id@));
    }
    match validate_project_export(&archive) {
        Ok(()) => Ok(archive),
        Err(e) => {
            proof {
                assert(exported(
                    archive,
                    *state,
                    messages@,
                    agents@,
                    providers@,
                    source_revision,
                    project_index(state.projects@, project_id@),
                ));
            }
            Err(e)
        },
    }
}

/// The content of an Agent.
pub open spec fn agent_view(a: AgentRecord) -> (
    Seq<char>,
    Seq<char>,
    (Seq<char>, Seq<char>, Option<Seq<char>>),
    Option<Seq<char>>,
    u64,
    bool,
) {
    (a.id@, a.name@, config_view(a.config), opt_view(a.owner_session_id), a.revision, a.enabled)
}

fn same_text(a: &Option<String>, b: &Option<String>) -> (equal: bool)
    ensures
        equal == (opt_view(*a) == opt_view(*b)),
{
    match (a, b) {
        (None, None) => true,
        (Some(x), Some(y)) => str_equals(x.as_str(), y.as_str()),
        _ => false,
    }
}

fn agents_equal(a: &AgentRecord, b: &AgentRecord) -> (equal: bool)
    ensures
        equal == (agent_view(*a) == agent_view(*b)),
{
    str_equals(a.id.as_str(), b.id.as_str()) && str_equals(a.name.as_str(), b.name.as_str())
        && str_equals(a.config.provider_id.as_str(), b.config.provider_id.as_str()) && str_equals(
        a.config.model.as_str(),
        b.config.model.as_str(),
    ) && same_text(&a.config.reasoning_effort, &b.config.reasoning_effort) && same_text(
        &a.owner_session_id,
        &b.owner_session_id,
    ) && a.revision == b.revision && a.enabled == b.enabled
}

fn providers_equal(a: &AgentProvider, b: &AgentProvider) -> (equal: bool)
    ensures
        equal == (provider_view(*a) == provider_view(*b)),
{
    if !(str_equals(a.id.as_str(), b.id.as_str()) && str_equals(a.name.as_str(), b.name.as_str())
        && a.kind == b.kind && same_text(&a.url, &b.url)) {
        return false;
    }
    let ghost view = |m: ProviderModel| model_view(m);
    if a.models.len() != b.models.len() {
        proof {
            assert(a.models@.map_values(view).len() != b.models@.map_values(view).len());
        }
        return false;
    }
    let mut i: usize = 0;
    while i < a.models.len()
        invariant
            i <= a.models@.len(),
            a.models@.len() == b.models@.len(),
            view == (|m: ProviderModel| model_view(m)),
            forall|j: int| 0 <= j < i ==> model_view(#[trigger] a.models@[j]) == model_view(b.models@[j]),
        decreases a.models.len() - i,
    {
        let same = str_equals(a.models[i].id.as_str(), b.models[i].id.as_str()) && str_equals(
            a.models[i].name.as_str(),
            b.models[i].name.as_str(),
        ) && texts_equal(&a.models[i].reasoning_efforts, &b.models[i].reasoning_efforts);
        if !same {
            proof {
                assert(a.models@.map_values(view)[i as int] != b.models@.map_values(view)[i as int]);
            }
            return false;
        }
        i = i + 1;
    }
    proof {
        assert(a.models@.map_values(view) =~= b.models@.map_values(view));
    }
    true
}

/// An imported Message or Session has the id of one already present.
pub open spec fn identity_conflict(
    messages: Seq<MessageRecord>,
    sessions: Seq<SessionRecord>,
    archive: ProjectExport,
) -> bool {
    ||| exists|i: int, j: int|
        0 <= i < archive.messages@.len() && 0 <= j < messages.len() && (#[trigger] archive.messages@[i]).id@
            == (#[trigger] messages[j]).id@
    ||| exists|i: int, j: int|
        0 <= i < archive.sessions@.len() && 0 <= j < sessions.len() && (#[trigger] archive.sessions@[i]).id@
            == (#[trigger] sessions[j]).id@
}

/// The first present Agent with the id of `imported` differs from it.
pub open spec fn agent_conflict(agents: Seq<AgentRecord>, imported: AgentRecord) -> bool {
    (exists|c: int| first_agent(agents, imported.id@, c)) && agent_view(
        agents[choose|c: int| first_agent(agents, imported.id@, c)],
    ) != agent_view(imported)
}

/// The first present provider with the id of `imported` differs from it.
pub open spec fn provider_conflict(providers: Seq<AgentProviderView>, imported: AgentProvider) -> bool {
    (exists|c: int| first_provider(providers, imported.id@, c)) && provider_view(
        providers[choose|c: int| first_provider(providers, imported.id@, c)].provider,
    ) != provider_view(imported)
}

/// The checks of importing an archive, in order: the archive passes
/// `export_check`, its Project id is unused, no imported Message or Session
/// id is present already, no present Agent differs from the imported one
/// with its id, and no present provider differs from the imported one with
/// its id.
pub open spec fn import_check(
    projects: Seq<ProjectRecord>,
    messages: Seq<MessageRecord>,
    sessions: Seq<SessionRecord>,
    agents: Seq<AgentRecord>,
    providers: Seq<AgentProviderView>,
    archive: ProjectExport,
) -> Outcome<()> {
    match export_check(archive) {
        Err(e) => Err(e),
        Ok(()) => if has_project(projects, archive.project.id@) {
            Err((ErrorCode::InvalidProject, "project id already exists"@, false))
        } else if identity_conflict(messages, sessions, archive) {
            Err(
                (
                    ErrorCode::InvalidProject,
                    "archive identity conflicts with existing workspace state"@,
                    false,
                ),
            )
        } else if exists|a: int|
            0 <= a < archive.agents@.len() && agent_conflict(agents, #[trigger] archive.agents@[a]) {
            Err(
                (
                    ErrorCode::InvalidAgentConfiguration,
                    "archive agent conflicts with an existing revision"@,
                    false,
                ),
            )
        } else if exists|q: int|
            0 <= q < archive.providers@.len() && provider_conflict(providers, #[trigger] archive.providers@[q]) {
            Err((ErrorCode::InvalidProject, "archive provider conflicts with an existing connection"@, false))
        } else {
            Ok(())
        },
    }
}

fn messages_clash(messages: &Vec<MessageRecord>, imported: &Vec<MessageRecord>) -> (clash: bool)
    ensures
        clash == exists|i: int, j: int|
            0 <= i < imported@.len() && 0 <= j < messages@.len() && (#[trigger] imported@[i]).id@
                == (#[trigger] messages@[j]).id@,
{
    let mut i: usize = 0;
    while i < imported.len()
        invariant
            i <= imported@.len(),
            forall|a: int, b: int|
                0 <= a < i && 0 <= b < messages@.len() ==> (#[trigger] imported@[a]).id@
                    != (#[trigger] messages@[b]).id@,
        decreases imported.len() - i,
    {
        let mut j: usize = 0;
        while j < messages.len()
            invariant
                i < imported@.len(),
                j <= messages@.len(),
                forall|b: int| 0 <= b < j ==> imported@[i as int].id@ != (#[trigger] messages@[b]).id@,
            decreases messages.len() - j,
        {
            if str_equals(imported[i].id.as_str(), messages[j].id.as_str()) {
                return true;
            }
            j = j + 1;
        }
        i = i + 1;
    }
    false
}

fn sessions_clash(sessions: &Vec<SessionRecord>, imported: &Vec<SessionRecord>) -> (clash: bool)
    ensures
        clash == exists|i: int, j: int|
            0 <= i < imported@.len() && 0 <= j < sessions@.len() && (#[trigger] imported@[i]).id@
                == (#[trigger] sessions@[j]).id@,
{
    let mut i: usize = 0;
    while i < imported.len()
        invariant
            i <= imported@.len(),
            forall|a: int, b: int|
                0 <= a < i && 0 <= b < sessions@.len() ==> (#[trigger] imported@[a]).id@
                    != (#[trigger] sessions@[b]).id@,
        decreases imported.len() - i,
    {
        let mut j: usize = 0;
        while j < sessions.len()
            invariant
                i < imported@.len(),
                j <= sessions@.len(),
                forall|b: int| 0 <= b < j ==> imported@[i as int].id@ != (#[trigger] sessions@[b]).id@,
            decreases sessions.len() - j,
        {
            if str_equals(imported[i].id.as_str(), sessions[j].id.as_str()) {
                return true;
            }
            j = j + 1;
        }
        i = i + 1;
    }
    false
}

fn agents_clash(agents: &Vec<AgentRecord>, imported: &Vec<AgentRecord>) -> (clash: bool)
    ensures
        clash == exists|a: int| 0 <= a < imported@.len() && agent_conflict(agents@, #[trigger] imported@[a]),
{
    let mut i: usize = 0;
    while i < imported.len()
        invariant
            i <= imported@.len(),
            forall|a: int| 0 <= a < i ==> !agent_conflict(agents@, #[trigger] imported@[a]),
        decreases imported.len() - i,
    {
        match find_agent(agents, imported[i].id.as_str()) {
            Some(k) => {
                proof {
                    let c = choose|c: int| first_agent(agents@, imported@[i as int].id@, c);
                    assert(c == k) by {
                        if c < k {
                            assert(agents@[c].id@ != imported@[i as int].id@);
                        } else if c > k {
                            assert(agents@[k as int].id@ != imported@[i as int].id@);
                        }
                    }
                }
                if !agents_equal(&agents[k], &imported[i]) {
                    return true;
                }
            },
            None => {
                proof {
                    if exists|c: int| first_agent(agents@, imported@[i as int].id@, c) {
                        let c = choose|c: int| first_agent(agents@, imported@[i as int].id@, c);
                        assert(agents@[c].id@ == imported@[i as int].id@);
                    }
                }
            },
        }
        i = i + 1;
    }
    false
}

fn find_listed_provider(providers: &Vec<AgentProviderView>, id: &str) -> (found: Option<usize>)
    ensures
        match found {
            Some(k) => first_provider(providers@, id@, k as int) && k == choose|c: int|
                first_provider(providers@, id@, c),
            None => !exists|c: int| first_provider(providers@, id@, c),
        },
{
    let mut k: usize = 0;
    while k < providers.len()
        invariant
            k <= providers@.len(),
            forall|j: int| 0 <= j < k ==> (#[trigger] providers@[j]).provider.id@ != id@,
        decreases providers.len() - k,
    {
        if str_equals(providers[k].provider.id.as_str(), id) {
            proof {
                assert(first_provider(providers@, id@, k as int));
                let c = choose|c: int| first_provider(providers@, id@, c);
                assert(c == k) by {
                    if c < k {
                        assert(providers@[c].provider.id@ != id@);
                    } else if c > k {
                        assert(providers@[k as int].provider.id@ != id@);
                    }
                }
            }
            return Some(k);
        }
        k = k + 1;
    }
    None
}

fn providers_clash(providers: &Vec<AgentProviderView>, imported: &Vec<AgentProvider>) -> (clash: bool)
    ensures
        clash == exists|q: int| 0 <= q < imported@.len() && provider_conflict(providers@, #[trigger] imported@[q]),
{
    let mut i: usize = 0;
    while i < imported.len()
        invariant
            i <= imported@.len(),
            forall|q: int| 0 <= q < i ==> !provider_conflict(providers@, #[trigger] imported@[q]),
        decreases imported.len() - i,
    {
        match find_listed_provider(providers, imported[i].id.as_str()) {
            Some(k) => {
                if !providers_equal(&providers[k].provider, &imported[i]) {
                    return true;
                }
            },
            None => {},
        }
        i = i + 1;
    }
    false
}

/// Checks an archive for import into the present state (see `import_check`).
pub fn check_project_import(
    projects: &Vec<ProjectRecord>,
    messages: &Vec<MessageRecord>,
    sessions: &Vec<SessionRecord>,
    agents: &Vec<AgentRecord>,
    providers: &Vec<AgentProviderView>,
    archive: &ProjectExport,
) -> (result: Result<(), ControlError>)
    ensures
        match (result, import_check(projects@, messages@, sessions@, agents@, providers@, *archive)) {
            (Ok(()), Ok(())) => true,
            (Err(e), Err(spec)) => is_error(e, spec.0, spec.1, spec.2),
            _ => false,
        },
{
    match validate_project_export(archive) {
        Ok(()) => {},
        Err(e) => return Err(e),
    }
    match find_project(projects, archive.project.id.as_str()) {
        Some(_) => return Err(control_error(ErrorCode::InvalidProject, "project id already exists", false)),
        None => {},
    }
    if messages_clash(messages, &archive.messages) || sessions_clash(sessions, &archive.sessions) {
        return Err(
            control_error(
                ErrorCode::InvalidProject,
                "archive identity conflicts with existing workspace state",
                false,
            ),
        );
    }
    if agents_clash(agents, &archive.agents) {
        return Err(
            control_error(
                ErrorCode::InvalidAgentConfiguration,
                "archive agent conflicts with an existing revision",
                false,
            ),
        );
    }
    if providers_clash(providers, &archive.providers) {
        return Err(
            control_error(
                ErrorCode::InvalidProject,
                "archive provider conflicts with an existing connection",
                false,
            ),
        );
    }
    Ok(())
}

/// The archived Agents whose ids are not present yet, in order.
pub open spec fn agents_to_add(agents: Seq<AgentRecord>, archive: ProjectExport) -> Seq<AgentRecord> {
    archive.agents@.filter(|a: AgentRecord| !agent_exists(agents, a.id@))
}

/// Some present provider has id `id`.
pub open spec fn provider_present(providers: Seq<AgentProviderView>, id: Seq<char>) -> bool {
    exists|c: int| first_provider(providers, id, c)
}

/// A listed provider as (content, whether a secret is stored).
pub open spec fn listing(v: AgentProviderView) -> (
    (Seq<char>, Seq<char>, AgentMode, Option<Seq<char>>, Seq<(Seq<char>, Seq<char>, Seq<Seq<char>>)>),
    bool,
) {
    (provider_view(v.provider), v.has_secret)
}

/// The archived providers whose ids are not present yet, in order, as
/// listings without a stored secret.
pub open spec fn providers_to_add(providers: Seq<AgentProviderView>, archive: ProjectExport) -> Seq<
    ((Seq<char>, Seq<char>, AgentMode, Option<Seq<char>>, Seq<(Seq<char>, Seq<char>, Seq<Seq<char>>)>), bool),
> {
    archive.providers@.filter(|p: AgentProvider| !provider_present(providers, p.id@)).map_values(
        |p: AgentProvider| (provider_view(p), false),
    )
}

fn add_agents(agents: &mut Vec<AgentRecord>, imported: &Vec<AgentRecord>)
    requires
        forall|i: int, j: int|
            0 <= j < i < imported@.len() ==> (#[trigger] imported@[j]).id@ != (#[trigger] imported@[i]).id@,
    ensures
        final(agents)@ == old(agents)@ + imported@.filter(
            |a: AgentRecord| !agent_exists(old(agents)@, a.id@),
        ),
{
    let ghost start = agents@;
    let ghost pred = |a: AgentRecord| !agent_exists(start, a.id@);
    let mut i: usize = 0;
    while i < imported.len()
        invariant
            i <= imported@.len(),
            pred == (|a: AgentRecord| !agent_exists(start, a.id@)),
            agents@ == start + imported@.take(i as int).filter(pred),
            forall|i: int, j: int|
                0 <= j < i < imported@.len() ==> (#[trigger] imported@[j]).id@ != (#[trigger] imported@[i]).id@,
            forall|k: int|
                start.len() <= k < agents@.len() ==> exists|j: int|
                    0 <= j < i && (#[trigger] imported@[j]).id@ == (#[trigger] agents@[k]).id@,
        decreases imported.len() - i,
    {
        proof {
            assert(imported@.take(i + 1) =~= imported@.take(i as int).push(imported@[i as int]));
            imported@.take(i as int).lemma_filter_push(imported@[i as int], pred);
        }
        let present = has_agent_id(agents, imported[i].id.as_str());
        proof {
            let id = imported@[i as int].id@;
            if agent_exists(agents@, id) && !agent_exists(start, id) {
                let k = choose|k: int| 0 <= k < agents@.len() && agents@[k].id@ == id;
                if k < start.len() {
                    assert(agents@[k] == start[k]);
                } else {
                    let j = choose|j: int| 0 <= j < i && (#[trigger] imported@[j]).id@ == agents@[k].id@;
                    assert(imported@[j].id@ != imported@[i as int].id@);
                }
            }
            if agent_exists(start, id) {
                let k = choose|k: int| 0 <= k < start.len() && start[k].id@ == id;
                assert(agents@[k] == start[k]);
            }
        }
        if !present {
            let ghost before = agents@;
            agents.push(copy_agent(&imported[i]));
            proof {
                assert forall|k: int| start.len() <= k < agents@.len() implies exists|j: int|
                    0 <= j < i + 1 && (#[trigger] imported@[j]).id@ == (#[trigger] agents@[k]).id@ by {
                    if k < before.len() {
                        assert(agents@[k] == before[k]);
                        let j = choose|j: int| 0 <= j < i && (#[trigger] imported@[j]).id@ == before[k].id@;
                        assert(imported@[j].id@ == agents@[k].id@);
                    } else {
                        assert(imported@[i as int].id@ == agents@[k].id@);
                    }
                }
            }
        }
        i = i + 1;
    }
    proof {
        assert(imported@.take(imported@.len() as int) =~= imported@);
    }
}

fn add_providers(providers: &mut Vec<AgentProviderView>, imported: &Vec<AgentProvider>)
    requires
        forall|i: int, j: int|
            0 <= j < i < imported@.len() ==> (#[trigger] imported@[j]).id@ != (#[trigger] imported@[i]).id@,
    ensures
        final(providers)@.map_values(|v: AgentProviderView| listing(v)) == old(providers)@.map_values(
            |v: AgentProviderView| listing(v),
        ) + imported@.filter(|p: AgentProvider| !provider_present(old(providers)@, p.id@)).map_values(
            |p: AgentProvider| (provider_view(p), false),
        ),
{
    let ghost start = providers@;
    let ghost pred = |p: AgentProvider| !provider_present(start, p.id@);
    let ghost list = |v: AgentProviderView| listing(v);
    let ghost fresh = |p: AgentProvider| (provider_view(p), false);
    let mut i: usize = 0;
    while i < imported.len()
        invariant
            i <= imported@.len(),
            pred == (|p: AgentProvider| !provider_present(start, p.id@)),
            list == (|v: AgentProviderView| listing(v)),
            fresh == (|p: AgentProvider| (provider_view(p), false)),
            providers@.len() >= start.len(),
            providers@.take(start.len() as int) == start,
            providers@.map_values(list) == start.map_values(list) + imported@.take(i as int).filter(pred).map_values(fresh),
            forall|i: int, j: int|
                0 <= j < i < imported@.len() ==> (#[trigger] imported@[j]).id@ != (#[trigger] imported@[i]).id@,
            forall|k: int|
                start.len() <= k < providers@.len() ==> exists|j: int|
                    0 <= j < i && (#[trigger] imported@[j]).id@ == (#[trigger] providers@[k]).provider.id@,
        decreases imported.len() - i,
    {
        proof {
            assert(imported@.take(i + 1) =~= imported@.take(i as int).push(imported@[i as int]));
            imported@.take(i as int).lemma_filter_push(imported@[i as int], pred);
        }
        let present = find_listed_provider(providers, imported[i].id.as_str()).is_some();
        proof {
            let id = imported@[i as int].id@;
            if provider_present(providers@, id) && !provider_present(start, id) {
                let k = choose|c: int| first_provider(providers@, id, c);
                if k < start.len() {
                    assert(providers@[k] == start[k]);
                    assert(forall|j: int| 0 <= j < k ==> (#[trigger] start[j]) == providers@[j]);
                    assert(first_provider(start, id, k));
                } else {
                    let j = choose|j: int| 0 <= j < i && (#[trigger] imported@[j]).id@ == providers@[k].provider.id@;
                    assert(imported@[j].id@ != imported@[i as int].id@);
                }
            }
            if provider_present(start, id) {
                let k = choose|c: int| first_provider(start, id, c);
                assert(providers@[k] == start[k]);
                assert(forall|j: int| 0 <= j < k ==> (#[trigger] providers@[j]) == start[j]);
                assert(first_provider(providers@, id, k));
            }
        }
        if !present {
            let ghost before = providers@;
            let copy = copy_provider(&imported[i]);
            providers.push(AgentProviderView { provider: copy, has_secret: false });
            proof {
                let kept = imported@.take(i as int).filter(pred);
                assert(providers@.map_values(list) =~= before.map_values(list).push(list(providers@.last())));
                assert(kept.push(imported@[i as int]).map_values(fresh) =~= kept.map_values(fresh).push(
                    fresh(imported@[i as int]),
                ));
                assert(providers@.take(start.len() as int) =~= before.take(start.len() as int));
                assert forall|k: int| start.len() <= k < providers@.len() implies exists|j: int|
                    0 <= j < i + 1 && (#[trigger] imported@[j]).id@ == (#[trigger] providers@[k]).provider.id@ by {
                    if k < before.len() {
                        assert(providers@[k] == before[k]);
                        let j = choose|j: int| 0 <= j < i && (#[trigger] imported@[j]).id@ == before[k].provider.id@;
                        assert(imported@[j].id@ == providers@[k].provider.id@);
                    } else {
                        assert(imported@[i as int].id@ == providers@[k].provider.id@);
                    }
                }
            }
        }
        i = i + 1;
    }
    proof {
        assert(imported@.take(imported@.len() as int) =~= imported@);
    }
}

proof fn lemma_checked_providers_distinct(providers: Seq<AgentProvider>, upto: int)
    requires
        0 <= upto <= providers.len(),
        providers_check(providers, upto) is Ok,
    ensures
        forall|i: int, j: int|
            0 <= j < i < upto ==> (#[trigger] providers[j]).id@ != (#[trigger] providers[i]).id@,
    decreases upto,
{
    if upto > 0 {
        lemma_checked_providers_distinct(providers, upto - 1);
        assert forall|i: int, j: int|
            0 <= j < i < upto implies (#[trigger] providers[j]).id@ != (#[trigger] providers[i]).id@ by {
            if i == upto - 1 {
                assert(!(exists|j: int| 0 <= j < upto - 1 && (#[trigger] providers[j]).id@ == providers[upto - 1].id@));
            }
        }
    }
}

proof fn lemma_checked_archive_distinct(archive: ProjectExport)
    requires
        export_check(archive) is Ok,
    ensures
        forall|i: int, j: int|
            0 <= j < i < archive.agents@.len() ==> (#[trigger] archive.agents@[j]).id@ != (#[trigger] archive.agents@[i]).id@,
        forall|i: int, j: int|
            0 <= j < i < archive.providers@.len() ==> (#[trigger] archive.providers@[j]).id@
                != (#[trigger] archive.providers@[i]).id@,
{
    assert forall|i: int, j: int|
        0 <= j < i < archive.agents@.len() implies (#[trigger] archive.agents@[j]).id@ != (#[trigger] archive.agents@[i]).id@ by {
        assert(!archived_agent_invalid(archive.agents@, i));
    }
    lemma_checked_providers_distinct(archive.providers@, archive.providers@.len() as int);
}

/// What importing an archive does (see `import_project`).
pub open spec fn project_imported(
    old_state: WorkingSet,
    new_state: WorkingSet,
    old_messages: Vec<MessageRecord>,
    new_messages: Vec<MessageRecord>,
    old_agents: Vec<AgentRecord>,
    new_agents: Vec<AgentRecord>,
    old_providers: Vec<AgentProviderView>,
    new_providers: Vec<AgentProviderView>,
    archive: ProjectExport,
    workdir: String,
    base_commit: String,
    result: Result<usize, ControlError>,
) -> bool {
    match result {
        Ok(k) => {
            &&& import_check(
                old_state.projects@,
                old_messages@,
                old_state.sessions@,
                old_agents@,
                old_providers@,
                archive,
            ) is Ok
            &&& !workdir_registered(old_state.projects@, workdir@)
            &&& k == old_state.projects@.len()
            &&& new_state.projects@ == old_state.projects@.push(
                ProjectRecord { workdir, base_commit, ..archive.project },
            )
            &&& new_state.sessions@ == old_state.sessions@ + archive.sessions@
            &&& new_state.runs == old_state.runs
            &&& new_state.journals == old_state.journals
            &&& new_messages@ == old_messages@ + archive.messages@
            &&& new_agents@ == old_agents@ + agents_to_add(old_agents@, archive)
            &&& new_providers@.map_values(|v: AgentProviderView| listing(v)) == old_providers@.map_values(|v: AgentProviderView| listing(v)) + providers_to_add(old_providers@, archive)
        },
        Err(e) => {
            &&& new_state == old_state
            &&& new_messages@ == old_messages@
            &&& new_agents@ == old_agents@
            &&& new_providers@ == old_providers@
            &&& match import_check(
                old_state.projects@,
                old_messages@,
                old_state.sessions@,
                old_agents@,
                old_providers@,
                archive,
            ) {
                Err(spec) => is_error(e, spec.0, spec.1, spec.2),
                Ok(()) => workdir_registered(old_state.projects@, workdir@) && is_error(
                    e,
                    ErrorCode::ProjectPathAlreadyRegistered,
                    "project path is already registered"@,
                    false,
                ),
            }
        },
    }
}

/// Imports an archive as a Project at the canonical Git work tree `workdir`
/// whose HEAD is `base_commit`: after `import_check`, the work tree must not
/// belong to a registered Project. The archive's Agents and providers whose
/// ids are not present are added (providers without a stored secret), its
/// Messages and Sessions are appended, and its Project is appended with the
/// new work tree and base commit. Returns the Project's position. On an
/// error nothing changes.
pub fn import_project(
    state: &mut WorkingSet,
    messages: &mut Vec<MessageRecord>,
    agents: &mut Vec<AgentRecord>,
    providers: &mut Vec<AgentProviderView>,
    archive: ProjectExport,
    workdir: String,
    base_commit: String,
) -> (result: Result<usize, ControlError>)
    ensures
        project_imported(
            *old(state),
            *final(state),
            *old(messages),
            *final(messages),
            *old(agents),
            *final(agents),
            *old(providers),
            *final(providers),
            archive,
            workdir,
            base_commit,
            result,
        ),
{
    match check_project_import(&state.projects, messages, &state.sessions, agents, providers, &archive) {
        Ok(()) => {},
        Err(e) => return Err(e),
    }
    if has_workdir(&state.projects, workdir.as_str()) {
        return Err(
            control_error(ErrorCode::ProjectPathAlreadyRegistered, "project path is already registered", false),
        );
    }
    proof {
        lemma_checked_archive_distinct(archive);
    }
    add_agents(agents, &archive.agents);
    add_providers(providers, &archive.providers);
    let ProjectExport {
        format_version: _,
        source_revision: _,
        providers: _,
        project,
        agents: _,
        mut sessions,
        messages: mut imported,
    } = archive;
    messages.append(&mut imported);
    state.sessions.append(&mut sessions);
    let ProjectRecord {
        id,
        name,
        workdir: _,
        root_message_id,
        repo_url,
        base_commit: _,
        default_agent_id,
        revision,
    } = project;
    state.projects.push(
        ProjectRecord { id, name, workdir, root_message_id, repo_url, base_commit, default_agent_id, revision },
    );
    Ok(state.projects.len() - 1)
}

/// An archive that passes `export_check` (as every archive
/// `export_project` returns does) is accepted for import into an empty
/// workspace.
pub proof fn lemma_export_imports_into_empty_workspace(archive: ProjectExport)
    requires
        export_check(archive) is Ok,
    ensures
        import_check(
            Seq::<ProjectRecord>::empty(),
            Seq::<MessageRecord>::empty(),
            Seq::<SessionRecord>::empty(),
            Seq::<AgentRecord>::empty(),
            Seq::<AgentProviderView>::empty(),
            archive,
        ) is Ok,
{
}

} // verus!
