//! The Agent a Session talks to: binding a Session to an Agent, and the
//! Session's own configuration.
use vstd::prelude::*;
use crate::catalog::{
    config_check, config_view, copy_config, find_agent, first_agent, first_enabled_agent,
    has_enabled_agent, require_agent, validate_config, AgentConfiguration, AgentProviderView,
    AgentRecord,
};
use crate::conversation::new_uuid;
use crate::errors::{control_error, is_error, ControlError, ErrorCode, Outcome};
use crate::json::opt_view;
use crate::runs::SessionRecord;
use crate::sessions::{
    busy_error, ensure_idle, find_session, first_session, session_versions_below_max,
};
use crate::text::str_equals;

verus! {

/// The Agent belongs to a Session other than `session_id`.
pub open spec fn owned_by_other(agent: AgentRecord, session_id: Seq<char>) -> bool {
    agent.owner_session_id matches Some(owner) && owner@ != session_id
}

/// `copy` is the Session `session_id`'s own copy of `agent`: the same name,
/// configuration and enablement, owned by the Session, at revision 1.
pub open spec fn session_copy(copy: AgentRecord, agent: AgentRecord, session_id: Seq<char>) -> bool {
    &&& copy.name@ == agent.name@
    &&& config_view(copy.config) == config_view(agent.config)
    &&& opt_view(copy.owner_session_id) == Some(session_id)
    &&& copy.revision == 1
    &&& copy.enabled == agent.enabled
}

/// The position of the first enabled Agent with id `id`.
pub open spec fn enabled_agent_at(agents: Seq<AgentRecord>, id: Seq<char>) -> int {
    choose|c: int| first_enabled_agent(agents, id, c)
}

/// Binding Session `session_id` to the Agent at `a` turns `before` into
/// `after`: an Agent that belongs to another Session is copied for this
/// Session (appended at the end); any other Agent is used as it is.
pub open spec fn agent_bound(
    before: Seq<AgentRecord>,
    after: Seq<AgentRecord>,
    a: int,
    session_id: Seq<char>,
) -> bool {
    if owned_by_other(before[a], session_id) {
        &&& after.len() == before.len() + 1
        &&& after.take(before.len() as int) == before
        &&& session_copy(after.last(), before[a], session_id)
    } else {
        after == before
    }
}

/// The id of the Agent that binding to the Agent at `a` gives the Session.
pub open spec fn bound_agent_id(
    before: Seq<AgentRecord>,
    after: Seq<AgentRecord>,
    a: int,
    session_id: Seq<char>,
) -> Seq<char> {
    if owned_by_other(before[a], session_id) {
        after.last().id@
    } else {
        before[a].id@
    }
}

/// The Agent that Session `session_id` uses when it asks for `agent_id`: the
/// first enabled Agent with that id when it is a named preset or already the
/// Session's own, else a fresh copy of it owned by the Session. Returns the
/// id of the Agent to use.
pub fn agent_for_session(agents: &mut Vec<AgentRecord>, agent_id: &str, session_id: &str) -> (result:
    Result<String, ControlError>)
    ensures
        match result {
            Ok(id) => {
                let a = enabled_agent_at(old(agents)@, agent_id@);
                &&& has_enabled_agent(old(agents)@, agent_id@)
                &&& agent_bound(old(agents)@, final(agents)@, a, session_id@)
                &&& id@ == bound_agent_id(old(agents)@, final(agents)@, a, session_id@)
            },
            Err(e) => !has_enabled_agent(old(agents)@, agent_id@) && is_error(
                e,
                ErrorCode::AgentNotFound,
                "enabled agent not found"@,
                false,
            ) && final(agents)@ == old(agents)@,
        },
{
    let a = match require_agent(agents, agent_id) {
        Ok(a) => a,
        Err(e) => return Err(e),
    };
    let shared = match &agents[a].owner_session_id {
        Some(owner) => !str_equals(owner.as_str(), session_id),
        None => false,
    };
    if !shared {
        return Ok(String::from_str(agent_id));
    }
    let id = new_uuid();
    let copy = AgentRecord {
        id: id.clone(),
        name: agents[a].name.clone(),
        config: copy_config(&agents[a].config),
        owner_session_id: Some(String::from_str(session_id)),
        revision: 1,
        enabled: agents[a].enabled,
    };
    let ghost before = agents@;
    agents.push(copy);
    proof {
        assert(agents@.take(before.len() as int) =~= before);
    }
    Ok(id)
}

/// The checks of binding a Session to an Agent, in order: the Agent must be
/// enabled, the Session must exist and must have no active Run. On success,
/// the positions of the Session and of the Agent.
pub open spec fn session_agent_check(
    sessions: Seq<SessionRecord>,
    agents: Seq<AgentRecord>,
    session_id: Seq<char>,
    agent_id: Seq<char>,
) -> Outcome<(int, int)> {
    if !has_enabled_agent(agents, agent_id) {
        Err((ErrorCode::AgentNotFound, "enabled agent not found"@, false))
    } else if !(exists|c: int| first_session(sessions, session_id, c)) {
        Err((ErrorCode::SessionNotFound, "session not found"@, false))
    } else {
        let s = choose|c: int| first_session(sessions, session_id, c);
        if sessions[s].active_run_id.is_some() {
            Err((ErrorCode::SessionBusy, "session already has an active run"@, false))
        } else {
            Ok((s, enabled_agent_at(agents, agent_id)))
        }
    }
}

/// `n + 1`, saturating at `u64::MAX`.
pub open spec fn saturating_next(n: u64) -> u64 {
    if n == u64::MAX {
        n
    } else {
        (n + 1) as u64
    }
}

/// What binding a Session to an Agent does (see `set_session_agent`).
pub open spec fn session_agent_set(
    old_sessions: Vec<SessionRecord>,
    new_sessions: Vec<SessionRecord>,
    old_agents: Vec<AgentRecord>,
    new_agents: Vec<AgentRecord>,
    session_id: Seq<char>,
    agent_id: Seq<char>,
    result: Result<usize, ControlError>,
) -> bool {
    match (result, session_agent_check(old_sessions@, old_agents@, session_id, agent_id)) {
        (Ok(k), Ok((s, a))) => {
            let session = old_sessions@[s];
            let bound = bound_agent_id(old_agents@, new_agents@, a, session_id);
            &&& k == s
            &&& agent_bound(old_agents@, new_agents@, a, session_id)
            &&& if bound == session.agent_id@ {
                new_sessions@ == old_sessions@
            } else {
                &&& new_sessions@ == old_sessions@.update(
                    s,
                    SessionRecord {
                        agent_id: new_sessions@[s].agent_id,
                        version: saturating_next(session.version),
                        ..session
                    },
                )
                &&& new_sessions@[s].agent_id@ == bound
            }
        },
        (Err(e), Err(spec)) => is_error(e, spec.0, spec.1, spec.2) && new_sessions@ == old_sessions@ && new_agents@ == old_agents@,
        _ => false,
    }
}

/// Binds a Session to an Agent (see `session_agent_check` and
/// `agent_bound`). When the bound Agent is already the Session's, nothing
/// changes; otherwise the Session takes it and moves to its next version.
/// Returns the Session's position. On an error nothing changes.
pub fn set_session_agent(
    sessions: &mut Vec<SessionRecord>,
    agents: &mut Vec<AgentRecord>,
    session_id: &str,
    agent_id: &str,
) -> (result: Result<usize, ControlError>)
    ensures
        session_agent_set(
            *old(sessions),
            *final(sessions),
            *old(agents),
            *final(agents),
            session_id@,
            agent_id@,
            result,
        ),
{
    match require_agent(agents, agent_id) {
        Ok(_) => {},
        Err(e) => return Err(e),
    }
    let s = match find_session(sessions, session_id) {
        Some(s) => s,
        None => return Err(control_error(ErrorCode::SessionNotFound, "session not found", false)),
    };
    if sessions[s].active_run_id.is_some() {
        return Err(control_error(ErrorCode::SessionBusy, "session already has an active run", false));
    }
    let bound = match agent_for_session(agents, agent_id, session_id) {
        Ok(id) => id,
        Err(e) => return Err(e),
    };
    if str_equals(sessions[s].agent_id.as_str(), bound.as_str()) {
        return Ok(s);
    }
    let ghost before = sessions@;
    sessions[s].agent_id = bound;
    sessions[s].version = sessions[s].version.saturating_add(1);
    proof {
        assert(sessions@ =~= before.update(
            s as int,
            SessionRecord {
                agent_id: sessions@[s as int].agent_id,
                version: saturating_next(before[s as int].version),
                ..before[s as int]
            },
        ));
    }
    Ok(s)
}

/// The checks of setting a Session's own configuration, in order: the
/// configuration must suit the catalog, the Session must exist and be idle,
/// and its current Agent must be enabled. On success, the positions of the
/// Session and of its current Agent.
pub open spec fn session_config_check(
    sessions: Seq<SessionRecord>,
    agents: Seq<AgentRecord>,
    providers: Seq<AgentProviderView>,
    session_id: Seq<char>,
    config: AgentConfiguration,
) -> Outcome<(int, int)> {
    match config_check(providers, config) {
        Err(e) => Err(e),
        Ok(_) => if !(exists|c: int| first_session(sessions, session_id, c)) {
            Err((ErrorCode::SessionNotFound, "session not found"@, false))
        } else {
            let s = choose|c: int| first_session(sessions, session_id, c);
            if sessions[s].active_run_id.is_some() {
                Err(busy_error())
            } else if !has_enabled_agent(agents, sessions[s].agent_id@) {
                Err((ErrorCode::AgentNotFound, "enabled agent not found"@, false))
            } else {
                Ok((s, enabled_agent_at(agents, sessions[s].agent_id@)))
            }
        },
    }
}

/// Every Agent that shares its id with an Agent of Session `session_id` is
/// below its last revision.
pub open spec fn own_agent_revisions_below_max(agents: Seq<AgentRecord>, session_id: Seq<char>) -> bool {
    forall|j: int, k: int|
        0 <= j < agents.len() && 0 <= k < agents.len() && opt_view(
            #[trigger] agents[j].owner_session_id,
        ) == Some(session_id) && (#[trigger] agents[k]).id@ == agents[j].id@ ==> agents[k].revision
            < u64::MAX
}

/// What giving a Session its own configuration does (see `set_session_config`).
pub open spec fn session_config_set(
    old_sessions: Vec<SessionRecord>,
    new_sessions: Vec<SessionRecord>,
    old_agents: Vec<AgentRecord>,
    new_agents: Vec<AgentRecord>,
    providers: &Vec<AgentProviderView>,
    session_id: Seq<char>,
    config: AgentConfiguration,
    result: Result<usize, ControlError>,
) -> bool {
    match (result, session_config_check(old_sessions@, old_agents@, providers@, session_id, config)) {
        (Ok(k), Ok((s, a))) => {
            let session = old_sessions@[s];
            let current = old_agents@[a];
            &&& k == s
            &&& if opt_view(current.owner_session_id) == Some(session_id) {
                let t = choose|c: int| first_agent(old_agents@, current.id@, c);
                &&& first_agent(old_agents@, current.id@, t)
                &&& new_agents@ == old_agents@.update(
                    t,
                    AgentRecord { config, revision: (old_agents@[t].revision + 1) as u64, ..old_agents@[t] },
                )
                &&& new_sessions@[s].agent_id@ == current.id@
            } else {
                &&& new_agents@.len() == old_agents@.len() + 1
                &&& new_agents@.take(old_agents@.len() as int) == old_agents@
                &&& new_agents@.last().name@.len() == 0
                &&& new_agents@.last().config == config
                &&& opt_view(new_agents@.last().owner_session_id) == Some(session_id)
                &&& new_agents@.last().revision == 1
                &&& new_agents@.last().enabled
                &&& new_sessions@[s].agent_id@ == new_agents@.last().id@
            }
            &&& new_sessions@ == old_sessions@.update(
                s,
                SessionRecord {
                    agent_id: new_sessions@[s].agent_id,
                    version: (session.version + 1) as u64,
                    ..session
                },
            )
        },
        (Err(e), Err(spec)) => is_error(e, spec.0, spec.1, spec.2) && new_sessions@ == old_sessions@ && new_agents@ == old_agents@,
        _ => false,
    }
}

/// Gives a Session its own configuration (see `session_config_check`). When
/// the Session's current Agent is already its own, the first Agent with that
/// id takes the configuration and moves to its next revision; otherwise a new
/// unnamed, enabled Agent owned by the Session is appended at revision 1.
/// The Session then uses that Agent and moves to its next version. Returns
/// the Session's position. On an error nothing changes.
pub fn set_session_config(
    sessions: &mut Vec<SessionRecord>,
    agents: &mut Vec<AgentRecord>,
    providers: &Vec<AgentProviderView>,
    session_id: &str,
    config: AgentConfiguration,
) -> (result: Result<usize, ControlError>)
    requires
        session_versions_below_max(old(sessions)@, session_id@),
        own_agent_revisions_below_max(old(agents)@, session_id@),
    ensures
        session_config_set(
            *old(sessions),
            *final(sessions),
            *old(agents),
            *final(agents),
            providers,
            session_id@,
            config,
            result,
        ),
{
    match validate_config(providers, &config) {
        Ok(_) => {},
        Err(e) => return Err(e),
    }
    let s = match find_session(sessions, session_id) {
        Some(s) => s,
        None => return Err(control_error(ErrorCode::SessionNotFound, "session not found", false)),
    };
    match ensure_idle(&sessions[s]) {
        Ok(()) => {},
        Err(e) => return Err(e),
    }
    let a = match require_agent(agents, sessions[s].agent_id.as_str()) {
        Ok(a) => a,
        Err(e) => return Err(e),
    };
    let own = match &agents[a].owner_session_id {
        Some(owner) => str_equals(owner.as_str(), session_id),
        None => false,
    };
    let ghost before = agents@;
    let agent_id = if own {
        let id = agents[a].id.clone();
        let t = match find_agent(agents, id.as_str()) {
            Some(t) => t,
            None => {
                proof {
                    assert(agents@[a as int].id@ == id@);
                }
                return Err(control_error(ErrorCode::AgentNotFound, "enabled agent not found", false));
            },
        };
        proof {
            assert(agents@[t as int].id@ == agents@[a as int].id@);
            assert(agents@[t as int].revision < u64::MAX);
        }
        agents[t].config = config;
        agents[t].revision = agents[t].revision + 1;
        proof {
            let c = choose|c: int| first_agent(before, before[a as int].id@, c);
            assert(c == t) by {
                if c < t {
                    assert(before[c].id@ != before[a as int].id@);
                } else if c > t {
                    assert(before[t as int].id@ != before[a as int].id@);
                }
            }
            assert(agents@ =~= before.update(
                t as int,
                AgentRecord { config, revision: (before[t as int].revision + 1) as u64, ..before[t as int] },
            ));
        }
        id
    } else {
        let id = new_uuid();
        agents.push(
            AgentRecord {
                id: id.clone(),
                name: String::new(),
                config,
                owner_session_id: Some(String::from_str(session_id)),
                revision: 1,
                enabled: true,
            },
        );
        proof {
            assert(agents@.take(before.len() as int) =~= before);
        }
        id
    };
    let ghost sessions_before = sessions@;
    proof {
        assert(sessions@[s as int].version < u64::MAX);
    }
    sessions[s].agent_id = agent_id;
    sessions[s].version = sessions[s].version + 1;
    proof {
        assert(sessions@ =~= sessions_before.update(
            s as int,
            SessionRecord {
                agent_id: sessions@[s as int].agent_id,
                version: (sessions_before[s as int].version + 1) as u64,
                ..sessions_before[s as int]
            },
        ));
    }
    Ok(s)
}

/// Binding a Session again to the same Agent, when that Agent is a named
/// preset or the Session's own, changes nothing and names the same Session.
pub proof fn lemma_rebinding_changes_nothing(
    sessions0: Vec<SessionRecord>,
    sessions1: Vec<SessionRecord>,
    sessions2: Vec<SessionRecord>,
    agents0: Vec<AgentRecord>,
    agents1: Vec<AgentRecord>,
    agents2: Vec<AgentRecord>,
    session_id: Seq<char>,
    agent_id: Seq<char>,
    k: usize,
    again: Result<usize, ControlError>,
)
    requires
        session_agent_set(sessions0, sessions1, agents0, agents1, session_id, agent_id, Ok(k)),
        !owned_by_other(agents0@[enabled_agent_at(agents0@, agent_id)], session_id),
        session_agent_set(sessions1, sessions2, agents1, agents2, session_id, agent_id, again),
    ensures
        again == Result::<usize, ControlError>::Ok(k),
        sessions2@ == sessions1@,
        agents2@ == agents1@,
{
    let s = k as int;
    assert(first_session(sessions0@, session_id, s));
    assert(sessions1@[s].id@ == sessions0@[s].id@);
    assert forall|j: int| 0 <= j < s implies (#[trigger] sessions1@[j]).id@ != session_id by {
        assert(sessions1@[j] == sessions0@[j]);
    }
    assert(first_session(sessions1@, session_id, s));
    let c = choose|c: int| first_session(sessions1@, session_id, c);
    assert(c == s) by {
        if c < s {
            assert(sessions1@[c].id@ != session_id);
        } else if c > s {
            assert(sessions1@[s].id@ != session_id);
        }
    }
    assert(sessions1@[s].active_run_id.is_none());
}

} // verus!
