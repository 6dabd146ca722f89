//! Portable Project archives: what an archive must hold to be exported or
//! imported, and how an import merges into the control plane's state.
use vstd::prelude::*;
use crate::catalog::{
    provider_check, validate_provider, AgentProvider, AgentRecord,
};
use crate::conversation::{find_message, first_message, MessageRecord};
use crate::errors::{control_error, is_error, ControlError, ErrorCode, Outcome};
use crate::runs::{ProjectRecord, SessionRecord};
use crate::sessions::same_ignoring_ascii_case;
use crate::text::{chars_of, git_commit_text, is_blank, is_blank_str, is_git_commit, str_equals};

verus! {

/// The archive format this library writes and accepts.
pub const PROJECT_EXPORT_VERSION: u32 = 1;

/// A portable copy of one Project: its conversation, Sessions, the Agents
/// they use and the providers those Agents name.
#[derive(Debug)]
pub struct ProjectExport {
    pub format_version: u32,
    /// The revision of the control state the archive was taken from.
    pub source_revision: u64,
    pub providers: Vec<AgentProvider>,
    pub project: ProjectRecord,
    pub agents: Vec<AgentRecord>,
    pub sessions: Vec<SessionRecord>,
    pub messages: Vec<MessageRecord>,
}

/// An ASCII hexadecimal digit, in either case.
pub open spec fn hex_char(c: char) -> bool {
    ('0' <= c <= '9') || ('a' <= c <= 'f') || ('A' <= c <= 'F')
}

/// 36 characters: hexadecimal digits in groups of 8, 4, 4, 4 and 12,
/// separated by hyphens.
pub open spec fn hyphenated_uuid(s: Seq<char>) -> bool {
    s.len() == 36 && forall|i: int|
        0 <= i < 36 ==> if i == 8 || i == 13 || i == 18 || i == 23 {
            #[trigger] s[i] == '-'
        } else {
            hex_char(s[i])
        }
}

/// The texts `uuid::Uuid::parse_str` accepts: 32 hexadecimal digits, the
/// hyphenated form, the hyphenated form in braces, or the hyphenated form
/// after a `urn:uuid:` prefix in any ASCII case.
pub open spec fn uuid_text(s: Seq<char>) -> bool {
    ||| s.len() == 32 && forall|i: int| 0 <= i < 32 ==> hex_char(#[trigger] s[i])
    ||| hyphenated_uuid(s)
    ||| s.len() == 38 && s[0] == '{' && s[37] == '}' && hyphenated_uuid(s.subrange(1, 37))
    ||| s.len() == 45 && same_ignoring_ascii_case(s.subrange(0, 9), "urn:uuid:"@) && hyphenated_uuid(
        s.subrange(9, 45),
    )
}

/// `uuid::Uuid::parse_str(text).is_ok()`. The contract restates the formats
/// the parser in `uuid`'s `parser.rs` accepts (see `uuid_text`): a string
/// with a non-ASCII character never matches them, so its byte length and
/// its character count agree whenever it does.
#[verifier::external_body]
fn parses_as_uuid(text: &str) -> (ok: bool)
    ensures
        ok == uuid_text(text@),
{
    uuid::Uuid::parse_str(text).is_ok()
}

/// The error of an unusable archive.
pub open spec fn archive_error(message: Seq<char>) -> (ErrorCode, Seq<char>, bool) {
    (ErrorCode::InvalidProject, message, false)
}

fn invalid_archive(message: &str) -> (e: ControlError)
    ensures
        is_error(e, ErrorCode::InvalidProject, message@, false),
{
    control_error(ErrorCode::InvalidProject, message, false)
}

/// The first refusal among the first `upto` providers of an archive: a
/// provider that `provider_check` refuses, or one whose id an earlier
/// provider already has.
pub open spec fn providers_check(providers: Seq<AgentProvider>, upto: int) -> Outcome<()>
    decreases upto,
{
    if upto <= 0 {
        Ok(())
    } else {
        match providers_check(providers, upto - 1) {
            Err(e) => Err(e),
            Ok(()) => match provider_check(providers[upto - 1]) {
                Err(e) => Err(e),
                Ok(()) => if exists|j: int|
                    0 <= j < upto - 1 && (#[trigger] providers[j]).id@ == providers[upto - 1].id@ {
                    Err(archive_error("duplicate provider"@))
                } else {
                    Ok(())
                },
            },
        }
    }
}

/// Some provider has id `id`.
pub open spec fn provider_listed(providers: Seq<AgentProvider>, id: Seq<char>) -> bool {
    exists|j: int| 0 <= j < providers.len() && (#[trigger] providers[j]).id@ == id
}

/// The refusal of one archived Agent, if any: its configuration must name a
/// listed provider and non-blank model and reasoning effort; an Agent owned
/// by a Session has an empty name and is that Session's Agent; a named
/// preset has a non-blank name.
pub open spec fn archived_agent_check(
    agent: AgentRecord,
    providers: Seq<AgentProvider>,
    sessions: Seq<SessionRecord>,
) -> Outcome<()> {
    if !provider_listed(providers, agent.config.provider_id@) || is_blank(agent.config.model@) || (
    agent.config.reasoning_effort matches Some(effort) && is_blank(effort@)) {
        Err(archive_error("invalid archived Agent configuration or provider reference"@))
    } else {
        match agent.owner_session_id {
            Some(owner) => if agent.name@.len() != 0 || !(exists|s: int|
                0 <= s < sessions.len() && (#[trigger] sessions[s]).id@ == owner@
                    && sessions[s].agent_id@ == agent.id@) {
                Err(archive_error("invalid anonymous Agent owner"@))
            } else {
                Ok(())
            },
            None => if is_blank(agent.name@) {
                Err(archive_error("named Agent requires a name"@))
            } else {
                Ok(())
            },
        }
    }
}

/// The first refusal among the first `upto` archived Agents.
pub open spec fn agents_check(
    agents: Seq<AgentRecord>,
    providers: Seq<AgentProvider>,
    sessions: Seq<SessionRecord>,
    upto: int,
) -> Outcome<()>
    decreases upto,
{
    if upto <= 0 {
        Ok(())
    } else {
        match agents_check(agents, providers, sessions, upto - 1) {
            Err(e) => Err(e),
            Ok(()) => archived_agent_check(agents[upto - 1], providers, sessions),
        }
    }
}

/// The Project's default Agent is an Agent owned by a Session.
pub open spec fn default_agent_anonymous(archive: ProjectExport) -> bool {
    archive.project.default_agent_id matches Some(id) && exists|a: int|
        0 <= a < archive.agents@.len() && (#[trigger] archive.agents@[a]).id@ == id@
            && archive.agents@[a].owner_session_id.is_some()
}

/// Some Session uses an Agent that another Session owns.
pub open spec fn anonymous_agent_shared(archive: ProjectExport) -> bool {
    exists|s: int, a: int|
        0 <= s < archive.sessions@.len() && 0 <= a < archive.agents@.len() && (#[trigger] archive.agents@[a]).id@
            == (#[trigger] archive.sessions@[s]).agent_id@ && (archive.agents@[a].owner_session_id matches Some(
            owner,
        ) && owner@ != archive.sessions@[s].id@)
}

/// The checks of an archive's catalog, in order: its providers (see
/// `providers_check`), its Agents (see `agents_check`), the Project's
/// default Agent is a named preset, and no Session uses another Session's
/// Agent.
pub open spec fn catalog_check(archive: ProjectExport) -> Outcome<()> {
    match providers_check(archive.providers@, archive.providers@.len() as int) {
        Err(e) => Err(e),
        Ok(()) => match agents_check(
            archive.agents@,
            archive.providers@,
            archive.sessions@,
            archive.agents@.len() as int,
        ) {
            Err(e) => Err(e),
            Ok(()) => if default_agent_anonymous(archive) {
                Err(archive_error("Project default Agent must be a named preset"@))
            } else if anonymous_agent_shared(archive) {
                Err(archive_error("anonymous Agent cannot be shared between Sessions"@))
            } else {
                Ok(())
            },
        },
    }
}

fn has_provider(providers: &Vec<AgentProvider>, upto: usize, id: &str) -> (found: bool)
    requires
        upto <= providers@.len(),
    ensures
        found == exists|j: int| 0 <= j < upto && (#[trigger] providers@[j]).id@ == id@,
{
    let mut k: usize = 0;
    while k < upto
        invariant
            k <= upto <= providers@.len(),
            forall|j: int| 0 <= j < k ==> (#[trigger] providers@[j]).id@ != id@,
        decreases upto - k,
    {
        if str_equals(providers[k].id.as_str(), id) {
            return true;
        }
        k = k + 1;
    }
    false
}

fn owner_uses(sessions: &Vec<SessionRecord>, owner: &str, agent_id: &str) -> (found: bool)
    ensures
        found == exists|s: int|
            0 <= s < sessions@.len() && (#[trigger] sessions@[s]).id@ == owner@ && sessions@[s].agent_id@
                == agent_id@,
{
    let mut k: usize = 0;
    while k < sessions.len()
        invariant
            k <= sessions@.len(),
            forall|s: int|
                0 <= s < k ==> !((#[trigger] sessions@[s]).id@ == owner@ && sessions@[s].agent_id@
                    == agent_id@),
        decreases sessions.len() - k,
    {
        if str_equals(sessions[k].id.as_str(), owner) && str_equals(sessions[k].agent_id.as_str(), agent_id) {
            return true;
        }
        k = k + 1;
    }
    false
}

fn check_archived_agent(
    agent: &AgentRecord,
    providers: &Vec<AgentProvider>,
    sessions: &Vec<SessionRecord>,
) -> (result: Result<(), ControlError>)
    ensures
        match (result, archived_agent_check(*agent, providers@, sessions@)) {
            (Ok(()), Ok(())) => true,
            (Err(e), Err(spec)) => is_error(e, spec.0, spec.1, spec.2),
            _ => false,
        },
{
    let blank_effort = match &agent.config.reasoning_effort {
        Some(effort) => is_blank_str(effort.as_str()),
        None => false,
    };
    if !has_provider(providers, providers.len(), agent.config.provider_id.as_str()) || is_blank_str(
        agent.config.model.as_str(),
    ) || blank_effort {
        return Err(invalid_archive("invalid archived Agent configuration or provider reference"));
    }
    match &agent.owner_session_id {
        Some(owner) => {
            let unnamed = chars_of(agent.name.as_str()).len() == 0;
            if !unnamed || !owner_uses(sessions, owner.as_str(), agent.id.as_str()) {
                return Err(invalid_archive("invalid anonymous Agent owner"));
            }
        },
        None => {
            if is_blank_str(agent.name.as_str()) {
                return Err(invalid_archive("named Agent requires a name"));
            }
        },
    }
    Ok(())
}

proof fn lemma_providers_check_settles(providers: Seq<AgentProvider>, upto: int, later: int)
    requires
        upto <= later,
        providers_check(providers, upto) is Err,
    ensures
        providers_check(providers, later) == providers_check(providers, upto),
    decreases later - upto,
{
    if upto < later {
        lemma_providers_check_settles(providers, upto, later - 1);
    }
}

proof fn lemma_agents_check_settles(
    agents: Seq<AgentRecord>,
    providers: Seq<AgentProvider>,
    sessions: Seq<SessionRecord>,
    upto: int,
    later: int,
)
    requires
        upto <= later,
        agents_check(agents, providers, sessions, upto) is Err,
    ensures
        agents_check(agents, providers, sessions, later) == agents_check(agents, providers, sessions, upto),
    decreases later - upto,
{
    if upto < later {
        lemma_agents_check_settles(agents, providers, sessions, upto, later - 1);
    }
}

/// Checks an archive's catalog (see `catalog_check`).
pub fn validate_archive_catalog(archive: &ProjectExport) -> (result: Result<(), ControlError>)
    ensures
        match (result, catalog_check(*archive)) {
            (Ok(()), Ok(())) => true,
            (Err(e), Err(spec)) => is_error(e, spec.0, spec.1, spec.2),
            _ => false,
        },
{
    let providers = &archive.providers;
    let mut i: usize = 0;
    while i < providers.len()
        invariant
            i <= providers@.len(),
            providers_check(providers@, i as int) is Ok,
            *providers == archive.providers,
        decreases providers.len() - i,
    {
        match validate_provider(&providers[i]) {
            Ok(()) => {},
            Err(e) => {
                proof {
                    lemma_providers_check_settles(providers@, i + 1, providers@.len() as int);
                    assert(catalog_check(*archive) == provider_check(providers@[i as int]));
                }
                return Err(e);
            },
        }
        if has_provider(providers, i, providers[i].id.as_str()) {
            proof {
                lemma_providers_check_settles(providers@, i + 1, providers@.len() as int);
            }
            return Err(invalid_archive("duplicate provider"));
        }
        i = i + 1;
    }
    let agents = &archive.agents;
    let mut k: usize = 0;
    while k < agents.len()
        invariant
            k <= agents@.len(),
            agents_check(agents@, providers@, archive.sessions@, k as int) is Ok,
            *providers == archive.providers,
            *agents == archive.agents,
            providers_check(archive.providers@, archive.providers@.len() as int) is Ok,
        decreases agents.len() - k,
    {
        match check_archived_agent(&agents[k], providers, &archive.sessions) {
            Ok(()) => {},
            Err(e) => {
                proof {
                    lemma_agents_check_settles(
                        agents@,
                        providers@,
                        archive.sessions@,
                        k + 1,
                        agents@.len() as int,
                    );
                    assert(catalog_check(*archive) == archived_agent_check(
                        agents@[k as int],
                        providers@,
                        archive.sessions@,
                    ));
                }
                return Err(e);
            },
        }
        k = k + 1;
    }
    proof {
        assert(providers_check(archive.providers@, archive.providers@.len() as int) is Ok);
        assert(agents_check(
            archive.agents@,
            archive.providers@,
            archive.sessions@,
            archive.agents@.len() as int,
        ) is Ok);
    }
    match &archive.project.default_agent_id {
        Some(id) => {
            let mut a: usize = 0;
            while a < agents.len()
                invariant
                    a <= agents@.len(),
                    *agents == archive.agents,
                    archive.project.default_agent_id == Some(*id),
                    providers_check(archive.providers@, archive.providers@.len() as int) is Ok,
                    agents_check(archive.agents@, archive.providers@, archive.sessions@, archive.agents@.len() as int) is Ok,
                    forall|j: int|
                        0 <= j < a ==> !((#[trigger] agents@[j]).id@ == id@ && agents@[j].owner_session_id.is_some()),
                decreases agents.len() - a,
            {
                if str_equals(agents[a].id.as_str(), id.as_str()) && agents[a].owner_session_id.is_some() {
                    proof {
                        assert(default_agent_anonymous(*archive));
                    }
                    return Err(invalid_archive("Project default Agent must be a named preset"));
                }
                a = a + 1;
            }
        },
        None => {},
    }
    let sessions = &archive.sessions;
    let mut s: usize = 0;
    while s < sessions.len()
        invariant
            s <= sessions@.len(),
            *agents == archive.agents,
            *sessions == archive.sessions,
            !default_agent_anonymous(*archive),
            providers_check(archive.providers@, archive.providers@.len() as int) is Ok,
            agents_check(archive.agents@, archive.providers@, archive.sessions@, archive.agents@.len() as int) is Ok,
            forall|t: int, a: int|
                0 <= t < s && 0 <= a < agents@.len() ==> !((#[trigger] agents@[a]).id@
                    == (#[trigger] sessions@[t]).agent_id@ && (agents@[a].owner_session_id matches Some(
                    owner,
                ) && owner@ != sessions@[t].id@)),
        decreases sessions.len() - s,
    {
        let mut a: usize = 0;
        while a < agents.len()
            invariant
                s < sessions@.len(),
                a <= agents@.len(),
                *agents == archive.agents,
                *sessions == archive.sessions,
                !default_agent_anonymous(*archive),
                providers_check(archive.providers@, archive.providers@.len() as int) is Ok,
                agents_check(archive.agents@, archive.providers@, archive.sessions@, archive.agents@.len() as int) is Ok,
                forall|b: int|
                    0 <= b < a ==> !((#[trigger] agents@[b]).id@ == sessions@[s as int].agent_id@ && (
                    agents@[b].owner_session_id matches Some(owner) && owner@ != sessions@[s as int].id@)),
            decreases agents.len() - a,
        {
            let shared = match &agents[a].owner_session_id {
                Some(owner) => str_equals(agents[a].id.as_str(), sessions[s].agent_id.as_str()) && !str_equals(
                    owner.as_str(),
                    sessions[s].id.as_str(),
                ),
                None => false,
            };
            if shared {
                proof {
                    assert(!default_agent_anonymous(*archive));
                    assert(archive.agents@[a as int].id@ == archive.sessions@[s as int].agent_id@);
                    assert(anonymous_agent_shared(*archive));
                }
                return Err(invalid_archive("anonymous Agent cannot be shared between Sessions"));
            }
            a = a + 1;
        }
        s = s + 1;
    }
    Ok(())
}

/// The archive's header and Project are unusable: a foreign format, a zero
/// source revision, a blank Project id, a zero Project revision, a base
/// commit that is no full Git commit id, a blank repository URL, or no
/// Messages.
pub open spec fn header_invalid(archive: ProjectExport) -> bool {
    ||| archive.format_version != PROJECT_EXPORT_VERSION
    ||| archive.source_revision == 0
    ||| is_blank(archive.project.id@)
    ||| archive.project.revision == 0
    ||| !git_commit_text(archive.project.base_commit@)
    ||| (archive.project.repo_url matches Some(url) && is_blank(url@))
    ||| archive.messages@.len() == 0
}

/// Message `k` of an archive of Project `project_id` is unusable: it belongs
/// to another Project, its id is no UUID, a standard user Message lacks a
/// full Git commit id, any other Message carries a commit, or an earlier
/// Message has its id.
pub open spec fn message_invalid(messages: Seq<MessageRecord>, k: int, project_id: Seq<char>) -> bool {
    let m = messages[k];
    let user_standard = m.role@ == "user"@ && m.kind@ == "standard"@;
    ||| m.project_id@ != project_id
    ||| !uuid_text(m.id@)
    ||| (user_standard && !(m.git_commit matches Some(c) && git_commit_text(c@)))
    ||| (m.git_commit.is_some() && !user_standard)
    ||| exists|j: int| 0 <= j < k && (#[trigger] messages[j]).id@ == m.id@
}

/// Where following parent links from an archived Message leads.
pub enum WalkEnd {
    /// The Project's root Message.
    Root,
    /// A Message met again: the walk did not end within the steps allowed.
    Cycle,
    /// A Message without a parent that is not the root.
    UnexpectedRoot,
    /// A parent that is not in the archive.
    MissingParent,
}

/// The walk by parent links from Message `k` towards the root `root_id`, in
/// at most `fuel` steps.
pub open spec fn walk_from(messages: Seq<MessageRecord>, root_id: Seq<char>, k: int, fuel: nat) -> WalkEnd
    decreases fuel,
{
    if messages[k].id@ == root_id {
        WalkEnd::Root
    } else if fuel == 0 {
        WalkEnd::Cycle
    } else {
        match messages[k].parent_message_id {
            None => WalkEnd::UnexpectedRoot,
            Some(parent) => if exists|c: int| first_message(messages, parent@, c) {
                walk_from(
                    messages,
                    root_id,
                    choose|c: int| first_message(messages, parent@, c),
                    (fuel - 1) as nat,
                )
            } else {
                WalkEnd::MissingParent
            },
        }
    }
}

/// The end of the first walk among those from the first `upto` Messages
/// that does not reach the root, each allowed as many steps as there are
/// Messages. With distinct ids, a walk that needs more steps meets a Message
/// twice.
pub open spec fn graph_failure(messages: Seq<MessageRecord>, root_id: Seq<char>, upto: int) -> Option<WalkEnd>
    decreases upto,
{
    if upto <= 0 {
        None
    } else {
        match graph_failure(messages, root_id, upto - 1) {
            Some(end) => Some(end),
            None => {
                let end = walk_from(messages, root_id, upto - 1, messages.len() as nat);
                if end is Root {
                    None
                } else {
                    Some(end)
                }
            },
        }
    }
}

/// The error of a walk that does not reach the root.
pub open spec fn walk_error(end: WalkEnd) -> Seq<char> {
    match end {
        WalkEnd::Cycle => "archive message graph contains a cycle"@,
        WalkEnd::UnexpectedRoot => "archive message graph contains an unexpected root"@,
        _ => "archive message parent is missing"@,
    }
}

/// Archived Agent `a` is unusable: a blank id, a zero revision, or an id an
/// earlier Agent has.
pub open spec fn archived_agent_invalid(agents: Seq<AgentRecord>, a: int) -> bool {
    ||| is_blank(agents[a].id@)
    ||| agents[a].revision == 0
    ||| exists|j: int| 0 <= j < a && (#[trigger] agents[j]).id@ == agents[a].id@
}

/// Some archived Agent has id `id`.
pub open spec fn agent_listed(agents: Seq<AgentRecord>, id: Seq<char>) -> bool {
    exists|a: int| 0 <= a < agents.len() && (#[trigger] agents[a]).id@ == id
}

/// Some archived Message has id `id`.
pub open spec fn message_listed(messages: Seq<MessageRecord>, id: Seq<char>) -> bool {
    exists|m: int| 0 <= m < messages.len() && (#[trigger] messages[m]).id@ == id
}

/// Archived Session `s` is unusable: it belongs to another Project, has
/// version zero or an active Run, repeats an earlier Session's id, or points
/// at a Message or an Agent the archive lacks.
pub open spec fn archived_session_invalid(archive: ProjectExport, s: int) -> bool {
    let session = archive.sessions@[s];
    ||| session.project_id@ != archive.project.id@
    ||| session.version == 0
    ||| session.active_run_id.is_some()
    ||| (exists|j: int| 0 <= j < s && (#[trigger] archive.sessions@[j]).id@ == session.id@)
    ||| !message_listed(archive.messages@, session.current_message_id@)
    ||| !agent_listed(archive.agents@, session.agent_id@)
}

/// The checks of an archive, in order: its header (see `header_invalid`),
/// its Messages (see `message_invalid`), its root Message (present, with no
/// parent and the system role), its message graph (see `graph_failure`),
/// its catalog (see `catalog_check`), its Agents (see
/// `archived_agent_invalid`), the Project's default Agent (listed), and its
/// Sessions (see `archived_session_invalid`).
pub open spec fn export_check(archive: ProjectExport) -> Outcome<()> {
    let messages = archive.messages@;
    let root_id = archive.project.root_message_id@;
    if header_invalid(archive) {
        Err(archive_error("archive header or project revision is invalid"@))
    } else if exists|k: int| 0 <= k < messages.len() && #[trigger] message_invalid(messages, k, archive.project.id@) {
        Err(archive_error("archive message identity or project ownership is invalid"@))
    } else if !(exists|c: int| first_message(messages, root_id, c)) {
        Err(archive_error("archive root message is missing"@))
    } else if ({
        let root = messages[choose|c: int| first_message(messages, root_id, c)];
        root.parent_message_id.is_some() || root.role@ != "system"@
    }) {
        Err(archive_error("archive root message is invalid"@))
    } else if graph_failure(messages, root_id, messages.len() as int) is Some {
        Err(archive_error(walk_error(graph_failure(messages, root_id, messages.len() as int)->Some_0)))
    } else {
        match catalog_check(archive) {
            Err(e) => Err(e),
            Ok(()) => if exists|a: int|
                0 <= a < archive.agents@.len() && #[trigger] archived_agent_invalid(archive.agents@, a) {
                Err(archive_error("archive agent revision is invalid"@))
            } else if archive.project.default_agent_id matches Some(id) && !agent_listed(
                archive.agents@,
                id@,
            ) {
                Err(archive_error("archive Project default Agent binding is invalid"@))
            } else if exists|s: int|
                0 <= s < archive.sessions@.len() && #[trigger] archived_session_invalid(archive, s) {
                Err(archive_error("archive session pointer, agent binding, or revision is invalid"@))
            } else {
                Ok(())
            },
        }
    }
}

fn archive_header_invalid(archive: &ProjectExport) -> (invalid: bool)
    ensures
        invalid == header_invalid(*archive),
{
    let blank_url = match &archive.project.repo_url {
        Some(url) => is_blank_str(url.as_str()),
        None => false,
    };
    archive.format_version != PROJECT_EXPORT_VERSION || archive.source_revision == 0 || is_blank_str(
        archive.project.id.as_str(),
    ) || archive.project.revision == 0 || !is_git_commit(archive.project.base_commit.as_str())
        || blank_url || archive.messages.len() == 0
}

fn message_id_before(messages: &Vec<MessageRecord>, k: usize) -> (found: bool)
    requires
        k < messages@.len(),
    ensures
        found == exists|j: int| 0 <= j < k && (#[trigger] messages@[j]).id@ == messages@[k as int].id@,
{
    let mut j: usize = 0;
    while j < k
        invariant
            j <= k < messages@.len(),
            forall|i: int| 0 <= i < j ==> (#[trigger] messages@[i]).id@ != messages@[k as int].id@,
        decreases k - j,
    {
        if str_equals(messages[j].id.as_str(), messages[k].id.as_str()) {
            return true;
        }
        j = j + 1;
    }
    false
}

fn archive_messages_invalid(messages: &Vec<MessageRecord>, project_id: &str) -> (invalid: bool)
    ensures
        invalid == exists|k: int| 0 <= k < messages@.len() && #[trigger] message_invalid(messages@, k, project_id@),
{
    let mut k: usize = 0;
    while k < messages.len()
        invariant
            k <= messages@.len(),
            forall|i: int| 0 <= i < k ==> !#[trigger] message_invalid(messages@, i, project_id@),
        decreases messages.len() - k,
    {
        let m = &messages[k];
        let user_standard = str_equals(m.role.as_str(), "user") && str_equals(m.kind.as_str(), "standard");
        let commit_ok = match &m.git_commit {
            Some(c) => is_git_commit(c.as_str()),
            None => false,
        };
        if !str_equals(m.project_id.as_str(), project_id) || !parses_as_uuid(m.id.as_str()) || (
        user_standard && !commit_ok) || (m.git_commit.is_some() && !user_standard) || message_id_before(
            messages,
            k,
        ) {
            proof {
                assert(message_invalid(messages@, k as int, project_id@));
            }
            return true;
        }
        k = k + 1;
    }
    false
}

fn walk_archived(messages: &Vec<MessageRecord>, root_id: &str, start: usize) -> (end: WalkEnd)
    requires
        start < messages@.len(),
    ensures
        end == walk_from(messages@, root_id@, start as int, messages@.len() as nat),
{
    let mut k: usize = start;
    let mut fuel: usize = messages.len();
    loop
        invariant
            k < messages@.len(),
            fuel <= messages@.len(),
            walk_from(messages@, root_id@, start as int, messages@.len() as nat) == walk_from(
                messages@,
                root_id@,
                k as int,
                fuel as nat,
            ),
        decreases fuel,
    {
        if str_equals(messages[k].id.as_str(), root_id) {
            return WalkEnd::Root;
        }
        if fuel == 0 {
            return WalkEnd::Cycle;
        }
        match &messages[k].parent_message_id {
            None => {
                return WalkEnd::UnexpectedRoot;
            },
            Some(parent) => match find_message(messages, parent.as_str()) {
                None => {
                    return WalkEnd::MissingParent;
                },
                Some(j) => {
                    k = j;
                    fuel = fuel - 1;
                },
            },
        }
    }
}

proof fn lemma_graph_failure_settles(messages: Seq<MessageRecord>, root_id: Seq<char>, upto: int, later: int)
    requires
        upto <= later,
        graph_failure(messages, root_id, upto) is Some,
    ensures
        graph_failure(messages, root_id, later) == graph_failure(messages, root_id, upto),
    decreases later - upto,
{
    if upto < later {
        lemma_graph_failure_settles(messages, root_id, upto, later - 1);
    }
}

fn archive_graph_failure(messages: &Vec<MessageRecord>, root_id: &str) -> (failure: Option<WalkEnd>)
    ensures
        failure == graph_failure(messages@, root_id@, messages@.len() as int),
{
    let mut k: usize = 0;
    while k < messages.len()
        invariant
            k <= messages@.len(),
            graph_failure(messages@, root_id@, k as int) is None,
        decreases messages.len() - k,
    {
        let end = walk_archived(messages, root_id, k);
        match end {
            WalkEnd::Root => {},
            _ => {
                proof {
                    lemma_graph_failure_settles(messages@, root_id@, k + 1, messages@.len() as int);
                }
                return Some(end);
            },
        }
        k = k + 1;
    }
    None
}

fn archive_agents_invalid(agents: &Vec<AgentRecord>) -> (invalid: bool)
    ensures
        invalid == exists|a: int| 0 <= a < agents@.len() && #[trigger] archived_agent_invalid(agents@, a),
{
    let mut a: usize = 0;
    while a < agents.len()
        invariant
            a <= agents@.len(),
            forall|i: int| 0 <= i < a ==> !#[trigger] archived_agent_invalid(agents@, i),
        decreases agents.len() - a,
    {
        let mut repeated = false;
        let mut j: usize = 0;
        while j < a
            invariant
                j <= a < agents@.len(),
                repeated == exists|i: int| 0 <= i < j && (#[trigger] agents@[i]).id@ == agents@[a as int].id@,
            decreases a - j,
        {
            if str_equals(agents[j].id.as_str(), agents[a].id.as_str()) {
                repeated = true;
            }
            j = j + 1;
        }
        if is_blank_str(agents[a].id.as_str()) || agents[a].revision == 0 || repeated {
            proof {
                assert(archived_agent_invalid(agents@, a as int));
            }
            return true;
        }
        a = a + 1;
    }
    false
}

fn has_agent(agents: &Vec<AgentRecord>, id: &str) -> (found: bool)
    ensures
        found == agent_listed(agents@, id@),
{
    let mut a: usize = 0;
    while a < agents.len()
        invariant
            a <= agents@.len(),
            forall|i: int| 0 <= i < a ==> (#[trigger] agents@[i]).id@ != id@,
        decreases agents.len() - a,
    {
        if str_equals(agents[a].id.as_str(), id) {
            return true;
        }
        a = a + 1;
    }
    false
}

fn has_message(messages: &Vec<MessageRecord>, id: &str) -> (found: bool)
    ensures
        found == message_listed(messages@, id@),
{
    match find_message(messages, id) {
        Some(_) => true,
        None => {
            proof {
                if message_listed(messages@, id@) {
                    let m = choose|m: int| 0 <= m < messages@.len() && (#[trigger] messages@[m]).id@ == id@;
                    lemma_first_message_exists(messages@, id@, m);
                }
            }
            false
        },
    }
}

/// A Message with id `id` at `m` means some first Message with that id exists.
proof fn lemma_first_message_exists(messages: Seq<MessageRecord>, id: Seq<char>, m: int)
    requires
        0 <= m < messages.len(),
        messages[m].id@ == id,
    ensures
        exists|c: int| first_message(messages, id, c),
    decreases m,
{
    if exists|j: int| 0 <= j < m && (#[trigger] messages[j]).id@ == id {
        let j = choose|j: int| 0 <= j < m && (#[trigger] messages[j]).id@ == id;
        lemma_first_message_exists(messages, id, j);
    } else {
        assert(first_message(messages, id, m));
    }
}

fn archive_sessions_invalid(archive: &ProjectExport) -> (invalid: bool)
    ensures
        invalid == exists|s: int| 0 <= s < archive.sessions@.len() && #[trigger] archived_session_invalid(*archive, s),
{
    let sessions = &archive.sessions;
    let mut s: usize = 0;
    while s < sessions.len()
        invariant
            s <= sessions@.len(),
            *sessions == archive.sessions,
            forall|i: int| 0 <= i < s ==> !#[trigger] archived_session_invalid(*archive, i),
        decreases sessions.len() - s,
    {
        let session = &sessions[s];
        let mut repeated = false;
        let mut j: usize = 0;
        while j < s
            invariant
                j <= s < sessions@.len(),
                *sessions == archive.sessions,
                repeated == exists|i: int| 0 <= i < j && (#[trigger] sessions@[i]).id@ == sessions@[s as int].id@,
            decreases s - j,
        {
            if str_equals(sessions[j].id.as_str(), sessions[s].id.as_str()) {
                repeated = true;
            }
            j = j + 1;
        }
        if !str_equals(session.project_id.as_str(), archive.project.id.as_str()) || session.version == 0
            || session.active_run_id.is_some() || repeated || !has_message(
            &archive.messages,
            session.current_message_id.as_str(),
        ) || !has_agent(&archive.agents, session.agent_id.as_str()) {
            proof {
                assert(archived_session_invalid(*archive, s as int));
            }
            return true;
        }
        s = s + 1;
    }
    false
}

/// Checks an archive before it is exported or imported (see `export_check`).
pub fn validate_project_export(archive: &ProjectExport) -> (result: Result<(), ControlError>)
    ensures
        match (result, export_check(*archive)) {
            (Ok(()), Ok(())) => true,
            (Err(e), Err(spec)) => is_error(e, spec.0, spec.1, spec.2),
            _ => false,
        },
{
    if archive_header_invalid(archive) {
        return Err(invalid_archive("archive header or project revision is invalid"));
    }
    if archive_messages_invalid(&archive.messages, archive.project.id.as_str()) {
        return Err(invalid_archive("archive message identity or project ownership is invalid"));
    }
    let root = match find_message(&archive.messages, archive.project.root_message_id.as_str()) {
        Some(r) => r,
        None => return Err(invalid_archive("archive root message is missing")),
    };
    if archive.messages[root].parent_message_id.is_some() || !str_equals(
        archive.messages[root].role.as_str(),
        "system",
    ) {
        return Err(invalid_archive("archive root message is invalid"));
    }
    match archive_graph_failure(&archive.messages, archive.project.root_message_id.as_str()) {
        Some(WalkEnd::Cycle) => return Err(invalid_archive("archive message graph contains a cycle")),
        Some(WalkEnd::UnexpectedRoot) => {
            return Err(invalid_archive("archive message graph contains an unexpected root"));
        },
        Some(_) => return Err(invalid_archive("archive message parent is missing")),
        None => {},
    }
    match validate_archive_catalog(archive) {
        Ok(()) => {},
        Err(e) => return Err(e),
    }
    if archive_agents_invalid(&archive.agents) {
        return Err(invalid_archive("archive agent revision is invalid"));
    }
    let default_unlisted = match &archive.project.default_agent_id {
        Some(id) => !has_agent(&archive.agents, id.as_str()),
        None => false,
    };
    if default_unlisted {
        return Err(invalid_archive("archive Project default Agent binding is invalid"));
    }
    if archive_sessions_invalid(archive) {
        return Err(invalid_archive("archive session pointer, agent binding, or revision is invalid"));
    }
    Ok(())
}

} // verus!
