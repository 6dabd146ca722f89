//! Cron schedules: enabling them, and the Runs their occurrences queue.
use vstd::prelude::*;
use crate::catalog::{
    config_check, config_view, copy_config, copy_provider, first_enabled_agent, has_enabled_agent,
    provider_view, require_agent, validate_config, AgentRecord,
};
use crate::conversation::{new_uuid, provider_at, RunCatalog, GitBaseline};
use crate::errors::{control_error, is_error, ControlError, ErrorCode, Outcome};
use crate::json::opt_view;
use crate::permissions::{effective_permission_profile, effective_profile, AgentMode, RunPermissionProfile};
use crate::runs::{RunRecord, WorkingSet};
use crate::settings::setting_text;
use crate::text::{push_str, str_equals};

verus! {

/// A scheduled prompt: which Agent answers which base Message of a Project, when.
#[derive(Debug)]
pub struct CronRecord {
    pub id: String,
    pub name: String,
    pub project_id: String,
    pub base_message_id: String,
    pub agent_id: String,
    pub schedule: String,
    pub timezone: String,
    pub enabled: bool,
}

/// `k` is the first Cron with id `id`.
pub open spec fn first_cron(crons: Seq<CronRecord>, id: Seq<char>, k: int) -> bool {
    0 <= k < crons.len() && crons[k].id@ == id && forall|j: int|
        0 <= j < k ==> (#[trigger] crons[j]).id@ != id
}

/// What enabling or disabling a Cron does (see `set_cron_enabled`).
pub open spec fn cron_enabled_set(
    old_crons: Vec<CronRecord>,
    new_crons: Vec<CronRecord>,
    cron_id: Seq<char>,
    enabled: bool,
    result: Result< usize, ControlError, >,
) -> bool {
    match result {
        Ok(k) => first_cron(old_crons@, cron_id, k as int) && new_crons@ == old_crons@.update(k as int, CronRecord { enabled, ..old_crons@[k as int] }),
        Err(e) => !(exists|k: int| first_cron(old_crons@, cron_id, k)) && is_error(
            e,
            ErrorCode::InvalidCron,
            "cron not found"@,
            false,
        ) && new_crons@ == old_crons@,
    }
}

/// Enables or disables a Cron; returns its position.
pub fn set_cron_enabled(crons: &mut Vec<CronRecord>, cron_id: &str, enabled: bool) -> (result: Result<
    usize,
    ControlError,
>)
    ensures
        cron_enabled_set(
            *old(crons),
            *final(crons),
            cron_id@,
            enabled,
            result,
        ),
{
    let mut k: usize = 0;
    while k < crons.len()
        invariant
            k <= crons@.len(),
            crons@ == old(crons)@,
            forall|j: int| 0 <= j < k ==> (#[trigger] crons@[j]).id@ != cron_id@,
        decreases crons.len() - k,
    {
        if str_equals(crons[k].id.as_str(), cron_id) {
            crons[k].enabled = enabled;
            proof {
                assert(crons@ =~= old(crons)@.update(
                    k as int,
                    CronRecord { enabled, ..old(crons)@[k as int] },
                ));
            }
            return Ok(k);
        }
        k = k + 1;
    }
    proof {
        if exists|c: int| first_cron(old(crons)@, cron_id@, c) {
            let c = choose|c: int| first_cron(old(crons)@, cron_id@, c);
            assert(crons@[c].id@ != cron_id@);
        }
    }
    Err(control_error(ErrorCode::InvalidCron, "cron not found", false))
}

/// Run `r` was queued by the Cron `cron_id` for the occurrence `scheduled_at`.
pub open spec fn occurrence_run(r: RunRecord, cron_id: Seq<char>, scheduled_at: i64) -> bool {
    opt_view(r.cron_id) == Some(cron_id) && r.scheduled_at == Some(scheduled_at)
}

/// `k` is the first Run queued for the occurrence.
pub open spec fn first_occurrence_run(runs: Seq<RunRecord>, cron_id: Seq<char>, scheduled_at: i64, k: int) -> bool {
    0 <= k < runs.len() && occurrence_run(runs[k], cron_id, scheduled_at) && forall|j: int|
        0 <= j < k ==> !occurrence_run(#[trigger] runs[j], cron_id, scheduled_at)
}

/// `k` is the first enabled Cron with id `id`.
pub open spec fn first_enabled_cron(crons: Seq<CronRecord>, id: Seq<char>, k: int) -> bool {
    0 <= k < crons.len() && crons[k].id@ == id && crons[k].enabled && forall|j: int|
        0 <= j < k ==> !((#[trigger] crons[j]).id@ == id && crons[j].enabled)
}

/// The position of the first enabled Cron with id `id`.
pub fn find_enabled_cron(crons: &Vec<CronRecord>, id: &str) -> (found: Option<usize>)
    ensures
        match found {
            Some(c) => first_enabled_cron(crons@, id@, c as int) && c == choose|k: int|
                first_enabled_cron(crons@, id@, k),
            None => !(exists|k: int| first_enabled_cron(crons@, id@, k)),
        },
{
    let mut c: usize = 0;
    while c < crons.len()
        invariant
            c <= crons@.len(),
            forall|j: int| 0 <= j < c ==> !((#[trigger] crons@[j]).id@ == id@ && crons@[j].enabled),
        decreases crons.len() - c,
    {
        if crons[c].enabled && str_equals(crons[c].id.as_str(), id) {
            proof {
                assert(first_enabled_cron(crons@, id@, c as int));
                let k = choose|k: int| first_enabled_cron(crons@, id@, k);
                assert(k == c) by {
                    if k < c {
                        assert(!(crons@[k].id@ == id@ && crons@[k].enabled));
                    } else if k > c {
                        assert(!(crons@[c as int].id@ == id@ && crons@[c as int].enabled));
                    }
                }
            }
            return Some(c);
        }
        c = c + 1;
    }
    proof {
        if exists|k: int| first_enabled_cron(crons@, id@, k) {
            let k = choose|k: int| first_enabled_cron(crons@, id@, k);
            assert(!(crons@[k].id@ == id@ && crons@[k].enabled));
        }
    }
    None
}

/// What triggering a Cron occurrence did.
#[derive(Clone, Copy, Debug, PartialEq, Eq, Structural)]
pub enum CronTrigger {
    /// The occurrence had already queued the Run at this position.
    Existing(usize),
    /// A Run was queued at this position.
    Queued(usize),
}

/// The checks a new Cron occurrence passes: the Cron is enabled, its Agent
/// is enabled and suits the catalog, the settings give a permission
/// snapshot, and a Codex Run has a Git baseline. On success, the positions
/// of the Cron and of the Agent, and the snapshot.
pub open spec fn occurrence_check(
    catalog: RunCatalog,
    crons: Seq<CronRecord>,
    cron_id: Seq<char>,
    has_baseline: bool,
    limits: crate::permissions::PermissionPolicyLimits,
) -> Outcome<(int, int, RunPermissionProfile)> {
    if !(exists|k: int| first_enabled_cron(crons, cron_id, k)) {
        Err((ErrorCode::InvalidCron, "enabled cron not found"@, false))
    } else {
        let c = choose|k: int| first_enabled_cron(crons, cron_id, k);
        let cron = crons[c];
        if !has_enabled_agent(catalog.agents@, cron.agent_id@) {
            Err((ErrorCode::AgentNotFound, "enabled agent not found"@, false))
        } else {
            let a = choose|k: int| first_enabled_agent(catalog.agents@, cron.agent_id@, k);
            let agent = catalog.agents@[a];
            match config_check(catalog.providers@, agent.config) {
                Err(e) => Err(e),
                Ok(p) => match effective_profile(
                    setting_text(catalog.settings, "permissions.sandbox"@),
                    setting_text(catalog.settings, "permissions.approval"@),
                    catalog.providers@[p].provider.kind,
                    limits,
                ) {
                    Err(e) => Err(e),
                    Ok(profile) => if catalog.providers@[p].provider.kind == AgentMode::Codex
                        && !has_baseline {
                        Err(
                            (
                                ErrorCode::ProjectGitHeadUnavailable,
                                "Codex Cron Run requires a Git baseline captured under the workspace lease"@,
                                true,
                            ),
                        )
                    } else {
                        Ok((c, a, profile))
                    },
                },
            }
        }
    }
}

/// The Run a Cron occurrence queues: unattached to any Session, answering
/// the Cron's base Message, queued at epoch zero.
pub open spec fn cron_run(
    run: RunRecord,
    cron: CronRecord,
    scheduled_at: i64,
    agent: AgentRecord,
    provider: crate::catalog::AgentProvider,
    profile: RunPermissionProfile,
    baseline: Option<GitBaseline>,
) -> bool {
    &&& run.project_id@ == cron.project_id@
    &&& run.base_message_id@ == cron.base_message_id@
    &&& run.last_message_id.is_none()
    &&& run.session_id.is_none()
    &&& run.agent_id@ == agent.id@
    &&& run.agent_revision == agent.revision
    &&& config_view(run.config) == config_view(agent.config)
    &&& provider_view(run.provider) == provider_view(provider)
    &&& run.permission_profile == profile
    &&& run.native_approvals@.len() == 0
    &&& run.trigger@ == "cron"@
    &&& occurrence_run(run, cron.id@, scheduled_at)
    &&& match baseline {
        Some(b) => opt_view(run.workspace_base_commit) == Some(b.commit@) && opt_view(
            run.workspace_base_index_tree,
        ) == Some(b.index_tree@),
        None => run.workspace_base_commit.is_none() && run.workspace_base_index_tree.is_none(),
    }
    &&& run.status@ == "queued"@
    &&& (run.phase matches Some(p) && p@ == "queued"@)
    &&& (run.operation_id matches Some(op) && op@ == "workspace-"@ + run.id@)
    &&& run.lease_epoch == 0
    &&& run.error.is_none()
}

/// What triggering a Cron occurrence does (see `trigger_cron`).
pub open spec fn cron_triggered(
    old_state: WorkingSet,
    new_state: WorkingSet,
    old_run_credentials: Vec<(String, String)>,
    new_run_credentials: Vec<(String, String)>,
    catalog: &RunCatalog,
    crons: &Vec<CronRecord>,
    cron_id: Seq<char>,
    scheduled_at: i64,
    workspace_baseline: Option<&GitBaseline>,
    limits: crate::permissions::PermissionPolicyLimits,
    result: Result<CronTrigger, ControlError>,
) -> bool {
    match result {
        Ok(CronTrigger::Existing(k)) => first_occurrence_run(
            old_state.runs@,
            cron_id,
            scheduled_at,
            k as int,
        ) && new_state == old_state && new_run_credentials@ == old_run_credentials@,
        _ => !(exists|k: int| first_occurrence_run(old_state.runs@, cron_id, scheduled_at, k))
            && match (result, occurrence_check(
            *catalog,
            crons@,
            cron_id,
            workspace_baseline.is_some(),
            limits,
        )) {
            (Ok(CronTrigger::Queued(r)), Ok((c, a, profile))) => {
                let agent = catalog.agents@[a];
                let run = new_state.runs@[r as int];
                &&& r == old_state.runs@.len()
                &&& new_state.runs@ == old_state.runs@.push(run)
                &&& cron_run(
                    run,
                    crons@[c],
                    scheduled_at,
                    agent,
                    provider_at(catalog.providers@, agent.config.provider_id@),
                    profile,
                    match workspace_baseline {
                        Some(b) => Some(*b),
                        None => None,
                    },
                )
                &&& match crate::conversation::credential_of(
                    catalog.provider_credentials@,
                    agent.config.provider_id@,
                ) {
                    Some(reference) => new_run_credentials@.len() == old_run_credentials@.len() + 1 && new_run_credentials@.take(
                        old_run_credentials@.len() as int,
                    ) == old_run_credentials@ && new_run_credentials@.last().0@ == run.id@
                        && new_run_credentials@.last().1@ == reference,
                    None => new_run_credentials@ == old_run_credentials@,
                }
                &&& new_state.sessions == old_state.sessions
                &&& new_state.projects == old_state.projects
                &&& new_state.journals == old_state.journals
            },
            (Err(e), Err(spec)) => is_error(e, spec.0, spec.1, spec.2) && new_state == old_state && new_run_credentials@ == old_run_credentials@,
            _ => false,
        },
    }
}

/// Queues the Run of one Cron occurrence, once: an occurrence that already
/// has its Run gets that Run back and nothing changes; otherwise the
/// occurrence passes `occurrence_check` and queues a Run (`cron_run`), with
/// the provider's credential bound to it when one is stored.
pub fn trigger_cron(
    state: &mut WorkingSet,
    run_credentials: &mut Vec<(String, String)>,
    catalog: &RunCatalog,
    crons: &Vec<CronRecord>,
    cron_id: &str,
    scheduled_at: i64,
    workspace_baseline: Option<&GitBaseline>,
    limits: crate::permissions::PermissionPolicyLimits,
) -> (result: Result<CronTrigger, ControlError>)
    ensures
        cron_triggered(
            *old(state),
            *final(state),
            *old(run_credentials),
            *final(run_credentials),
            catalog,
            crons,
            cron_id@,
            scheduled_at,
            workspace_baseline,
            limits,
            result,
        ),
{
    let mut i: usize = 0;
    while i < state.runs.len()
        invariant
            i <= state.runs@.len(),
            forall|j: int| 0 <= j < i ==> !occurrence_run(#[trigger] state.runs@[j], cron_id@, scheduled_at),
        decreases state.runs.len() - i,
    {
        let same_cron = match &state.runs[i].cron_id {
            Some(c) => str_equals(c.as_str(), cron_id),
            None => false,
        };
        if same_cron && state.runs[i].scheduled_at == Some(scheduled_at) {
            return Ok(CronTrigger::Existing(i));
        }
        i = i + 1;
    }
    proof {
        if exists|k: int| first_occurrence_run(state.runs@, cron_id@, scheduled_at, k) {
            let k = choose|k: int| first_occurrence_run(state.runs@, cron_id@, scheduled_at, k);
            assert(!occurrence_run(state.runs@[k], cron_id@, scheduled_at));
        }
    }
    let c = match find_enabled_cron(crons, cron_id) {
        Some(c) => c,
        None => return Err(control_error(ErrorCode::InvalidCron, "enabled cron not found", false)),
    };
    let cron = &crons[c];
    let a = match require_agent(&catalog.agents, cron.agent_id.as_str()) {
        Ok(a) => a,
        Err(e) => return Err(e),
    };
    let agent = &catalog.agents[a];
    let p = match validate_config(&catalog.providers, &agent.config) {
        Ok(p) => p,
        Err(e) => return Err(e),
    };
    let provider = &catalog.providers[p].provider;
    let profile = match effective_permission_profile(&catalog.settings, provider.kind, limits) {
        Ok(profile) => profile,
        Err(e) => return Err(e),
    };
    if provider.kind == AgentMode::Codex && workspace_baseline.is_none() {
        return Err(
            control_error(
                ErrorCode::ProjectGitHeadUnavailable,
                "Codex Cron Run requires a Git baseline captured under the workspace lease",
                true,
            ),
        );
    }
    let run_id = new_uuid();
    let mut k: usize = 0;
    let mut reference: Option<String> = None;
    while k < catalog.provider_credentials.len() && reference.is_none()
        invariant
            k <= catalog.provider_credentials@.len(),
            reference matches Some(r) ==> crate::conversation::credential_of(
                catalog.provider_credentials@,
                agent.config.provider_id@,
            ) == Some(r@),
            reference is None ==> forall|j: int|
                0 <= j < k ==> (#[trigger] catalog.provider_credentials@[j]).0@
                    != agent.config.provider_id@,
        decreases catalog.provider_credentials.len() - k,
    {
        if str_equals(catalog.provider_credentials[k].0.as_str(), agent.config.provider_id.as_str()) {
            proof {
                let creds = catalog.provider_credentials@;
                let id = agent.config.provider_id@;
                let w = choose|w: int|
                    0 <= w < creds.len() && creds[w].0@ == id && forall|j: int|
                        0 <= j < w ==> (#[trigger] creds[j]).0@ != id;
                assert(0 <= k < creds.len() && creds[k as int].0@ == id && forall|j: int|
                    0 <= j < k ==> (#[trigger] creds[j]).0@ != id);
                assert(w == k) by {
                    if w < k {
                        assert(creds[w].0@ != id);
                    } else if w > k {
                        assert(creds[k as int].0@ != id);
                    }
                }
            }
            reference = Some(catalog.provider_credentials[k].1.clone());
        }
        k = k + 1;
    }
    match reference {
        Some(r) => {
            let ghost before_credentials = run_credentials@;
            run_credentials.push((run_id.clone(), r));
            proof {
                assert(run_credentials@.take(before_credentials.len() as int) =~= before_credentials);
            }
        },
        None => {},
    }
    let (workspace_base_commit, workspace_base_index_tree) = match workspace_baseline {
        Some(b) => (Some(b.commit.clone()), Some(b.index_tree.clone())),
        None => (None, None),
    };
    let mut operation_id = String::from_str("workspace-");
    push_str(&mut operation_id, run_id.as_str());
    let run = RunRecord {
        id: run_id,
        project_id: cron.project_id.clone(),
        session_id: None,
        status: String::from_str("queued"),
        phase: Some(String::from_str("queued")),
        operation_id: Some(operation_id),
        lease_epoch: 0,
        error: None,
        permission_profile: profile,
        agent_id: agent.id.clone(),
        agent_revision: agent.revision,
        config: copy_config(&agent.config),
        provider: copy_provider(provider),
        trigger: String::from_str("cron"),
        cron_id: Some(cron.id.clone()),
        scheduled_at: Some(scheduled_at),
        workspace_base_commit,
        workspace_base_index_tree,
        base_message_id: cron.base_message_id.clone(),
        last_message_id: None,
        native_approvals: Vec::new(),
    };
    state.runs.push(run);
    Ok(CronTrigger::Queued(state.runs.len() - 1))
}

/// Triggering is idempotent per occurrence: once an occurrence has queued
/// its Run, triggering it again finds that Run.
pub proof fn lemma_occurrence_is_found_again(
    runs: Seq<RunRecord>,
    run: RunRecord,
    cron_id: Seq<char>,
    scheduled_at: i64,
)
    requires
        !(exists|k: int| first_occurrence_run(runs, cron_id, scheduled_at, k)),
        occurrence_run(run, cron_id, scheduled_at),
    ensures
        first_occurrence_run(runs.push(run), cron_id, scheduled_at, runs.len() as int),
{
    let extended = runs.push(run);
    assert forall|j: int| 0 <= j < runs.len() implies !occurrence_run(
        #[trigger] extended[j],
        cron_id,
        scheduled_at,
    ) by {
        assert(extended[j] == runs[j]);
        if occurrence_run(runs[j], cron_id, scheduled_at) {
            lemma_first_occurrence_below(runs, cron_id, scheduled_at, j);
        }
    }
}

proof fn lemma_first_occurrence_below(runs: Seq<RunRecord>, cron_id: Seq<char>, scheduled_at: i64, w: int)
    requires
        0 <= w < runs.len(),
        occurrence_run(runs[w], cron_id, scheduled_at),
    ensures
        exists|k: int| first_occurrence_run(runs, cron_id, scheduled_at, k),
    decreases w,
{
    if forall|j: int| 0 <= j < w ==> !occurrence_run(#[trigger] runs[j], cron_id, scheduled_at) {
        assert(first_occurrence_run(runs, cron_id, scheduled_at, w));
    } else {
        let j = choose|j: int| 0 <= j < w && occurrence_run(#[trigger] runs[j], cron_id, scheduled_at);
        lemma_first_occurrence_below(runs, cron_id, scheduled_at, j);
    }
}

} // verus!
