//! The event outbox: what a change of the control plane's state announces.
//! An event names its kind and the entity it concerns; its payload is the
//! entity's record as the change left it, which the host encodes when it
//! stores the event.
use vstd::prelude::*;
use vstd::string::*;
use crate::json::opt_view;

verus! {

/// The kinds of event the control plane queues.
#[derive(Clone, Copy, Debug, PartialEq, Eq, Structural)]
pub enum EventKind {
    ProjectRegistered,
    ProjectDefaultAgentUpdated,
    ProjectImported,
    AgentRegistered,
    AgentUpdated,
    SessionCreated,
    SessionAgentUpdated,
    SessionRenamed,
    SessionTitleUpdated,
    SessionTitleGenerationStarted,
    SessionTitleGenerated,
    RunUpdated,
    RunApprovalResolved,
    RunRecoveryClaimed,
    RunRecovered,
    CronEnabledChanged,
    CronRunTriggered,
    SettingsUpdated,
    SettingsReset,
}

/// The name an event kind is stored under.
pub open spec fn kind_name(kind: EventKind) -> Seq<char> {
    match kind {
        EventKind::ProjectRegistered => "project.registered"@,
        EventKind::ProjectDefaultAgentUpdated => "project.default_agent_updated"@,
        EventKind::ProjectImported => "project.imported"@,
        EventKind::AgentRegistered => "agent.registered"@,
        EventKind::AgentUpdated => "agent.updated"@,
        EventKind::SessionCreated => "session.created"@,
        EventKind::SessionAgentUpdated => "session.agent_updated"@,
        EventKind::SessionRenamed => "session.renamed"@,
        EventKind::SessionTitleUpdated => "session.title_updated"@,
        EventKind::SessionTitleGenerationStarted => "session.title_generation_started"@,
        EventKind::SessionTitleGenerated => "session.title_generated"@,
        EventKind::RunUpdated => "run.updated"@,
        EventKind::RunApprovalResolved => "run.approval_resolved"@,
        EventKind::RunRecoveryClaimed => "run.recovery_claimed"@,
        EventKind::RunRecovered => "run.recovered"@,
        EventKind::CronEnabledChanged => "cron.enabled_changed"@,
        EventKind::CronRunTriggered => "cron.run_triggered"@,
        EventKind::SettingsUpdated => "settings.updated"@,
        EventKind::SettingsReset => "settings.reset"@,
    }
}

/// The stored name of an event kind (see `kind_name`).
pub fn kind_text(kind: EventKind) -> (name: String)
    ensures
        name@ == kind_name(kind),
{
    let name = match kind {
        EventKind::ProjectRegistered => "project.registered",
        EventKind::ProjectDefaultAgentUpdated => "project.default_agent_updated",
        EventKind::ProjectImported => "project.imported",
        EventKind::AgentRegistered => "agent.registered",
        EventKind::AgentUpdated => "agent.updated",
        EventKind::SessionCreated => "session.created",
        EventKind::SessionAgentUpdated => "session.agent_updated",
        EventKind::SessionRenamed => "session.renamed",
        EventKind::SessionTitleUpdated => "session.title_updated",
        EventKind::SessionTitleGenerationStarted => "session.title_generation_started",
        EventKind::SessionTitleGenerated => "session.title_generated",
        EventKind::RunUpdated => "run.updated",
        EventKind::RunApprovalResolved => "run.approval_resolved",
        EventKind::RunRecoveryClaimed => "run.recovery_claimed",
        EventKind::RunRecovered => "run.recovered",
        EventKind::CronEnabledChanged => "cron.enabled_changed",
        EventKind::CronRunTriggered => "cron.run_triggered",
        EventKind::SettingsUpdated => "settings.updated",
        EventKind::SettingsReset => "settings.reset",
    };
    String::from_str(name)
}

/// An event waiting in the outbox: its kind and the id of the entity it
/// concerns (none for settings).
#[derive(Debug)]
pub struct PendingEvent {
    pub kind: String,
    pub entity_id: Option<String>,
}

/// An event as the contracts read it: its kind's name and its entity.
pub open spec fn event_view(e: PendingEvent) -> (Seq<char>, Option<Seq<char>>) {
    (e.kind@, opt_view(e.entity_id))
}

/// The views of queued events.
pub open spec fn event_views(events: Seq<PendingEvent>) -> Seq<(Seq<char>, Option<Seq<char>>)> {
    events.map_values(|e: PendingEvent| event_view(e))
}

/// The event of kind `kind` about `entity`.
pub open spec fn event_of(kind: EventKind, entity: Option<Seq<char>>) -> (Seq<char>, Option<Seq<char>>) {
    (kind_name(kind), entity)
}

/// Queues one event.
pub fn push_event(outbox: &mut Vec<PendingEvent>, kind: EventKind, entity_id: Option<String>)
    ensures
        event_views(final(outbox)@) == event_views(old(outbox)@).push(event_of(kind, opt_view(entity_id))),
{
    let ghost before = outbox@;
    outbox.push(PendingEvent { kind: kind_text(kind), entity_id });
    proof {
        assert(outbox@ =~= before.push(outbox@.last()));
        assert(event_views(outbox@) =~= event_views(before).push(event_of(kind, opt_view(entity_id))));
    }
}

} // verus!
