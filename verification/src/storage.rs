//! Which stored record each piece of the control plane's state is, and in
//! which Project's store it lives: records of a Project carry that Project,
//! Run credentials and journals carry their Run's Project, and Agents,
//! providers, provider credentials and the settings belong to no Project.
//! The host encodes each record's value and writes the changes.
use vstd::prelude::*;
use vstd::string::*;
use crate::catalog::{builtin_providers, is_builtin_codex, AgentProviderView, AgentRecord};
use crate::conversation::RunCatalog;
use crate::settings::SettingValue;
use crate::commands::ControlState;
use crate::conversation::MessageRecord;
use crate::crons::CronRecord;
use crate::json::opt_view;
use crate::runs::{ProjectRecord, RunJournal, RunRecord, SessionRecord};
use crate::text::{chars_of, str_equals};

verus! {

/// The kinds of stored record.
#[derive(Clone, Copy, Debug, PartialEq, Eq, Structural)]
pub enum RecordKind {
    Project,
    Agent,
    Provider,
    ProviderCredential,
    RunCredential,
    Session,
    Message,
    Run,
    WorkspaceRunJournal,
    Cron,
    Settings,
}

/// A record's kind, id and the Project whose store holds it.
pub type RecordKey = (RecordKind, String, Option<String>);

/// A record key as the contracts read it.
pub type KeyView = (RecordKind, Seq<char>, Option<Seq<char>>);

/// The view of a record key.
pub open spec fn key_view(k: RecordKey) -> KeyView {
    (k.0, k.1@, opt_view(k.2))
}

/// The views of record keys.
pub open spec fn key_views(keys: Seq<RecordKey>) -> Seq<KeyView> {
    keys.map_values(|k: RecordKey| key_view(k))
}

/// The keys of the project records, in order.
pub open spec fn project_keys(xs: Seq<ProjectRecord>) -> Seq<KeyView> {
    xs.map_values(|x: ProjectRecord| (RecordKind::Project, x.id@, Some(x.id@)))
}

fn push_project_keys(out: &mut Vec<RecordKey>, xs: &Vec<ProjectRecord>)
    ensures
        key_views(final(out)@) == key_views(old(out)@) + project_keys(xs@),
{
    let ghost start = key_views(out@);
    let mut i: usize = 0;
    while i < xs.len()
        invariant
            i <= xs.len(),
            key_views(out@) == start + project_keys(xs@).take(i as int),
        decreases xs.len() - i,
    {
        let x = &xs[i];
        let ghost before = out@;
        out.push((RecordKind::Project, x.id.clone(), Some(x.id.clone())));
        proof {
            assert(out@ =~= before.push(out@.last()));
            assert(project_keys(xs@).take(i + 1) =~= project_keys(xs@).take(i as int).push(project_keys(xs@)[i as int]));
            assert(key_views(out@) =~= key_views(before).push(key_view(out@.last())));
        }
        i = i + 1;
    }
    proof {
        assert(project_keys(xs@).take(xs@.len() as int) =~= project_keys(xs@));
    }
}

/// The keys of the agent records, in order.
pub open spec fn agent_keys(xs: Seq<AgentRecord>) -> Seq<KeyView> {
    xs.map_values(|x: AgentRecord| (RecordKind::Agent, x.id@, None))
}

fn push_agent_keys(out: &mut Vec<RecordKey>, xs: &Vec<AgentRecord>)
    ensures
        key_views(final(out)@) == key_views(old(out)@) + agent_keys(xs@),
{
    let ghost start = key_views(out@);
    let mut i: usize = 0;
    while i < xs.len()
        invariant
            i <= xs.len(),
            key_views(out@) == start + agent_keys(xs@).take(i as int),
        decreases xs.len() - i,
    {
        let x = &xs[i];
        let ghost before = out@;
        out.push((RecordKind::Agent, x.id.clone(), None));
        proof {
            assert(out@ =~= before.push(out@.last()));
            assert(agent_keys(xs@).take(i + 1) =~= agent_keys(xs@).take(i as int).push(agent_keys(xs@)[i as int]));
            assert(key_views(out@) =~= key_views(before).push(key_view(out@.last())));
        }
        i = i + 1;
    }
    proof {
        assert(agent_keys(xs@).take(xs@.len() as int) =~= agent_keys(xs@));
    }
}

/// The keys of the provider records, in order.
pub open spec fn provider_keys(xs: Seq<AgentProviderView>) -> Seq<KeyView> {
    xs.map_values(|x: AgentProviderView| (RecordKind::Provider, x.provider.id@, None))
}

fn push_provider_keys(out: &mut Vec<RecordKey>, xs: &Vec<AgentProviderView>)
    ensures
        key_views(final(out)@) == key_views(old(out)@) + provider_keys(xs@),
{
    let ghost start = key_views(out@);
    let mut i: usize = 0;
    while i < xs.len()
        invariant
            i <= xs.len(),
            key_views(out@) == start + provider_keys(xs@).take(i as int),
        decreases xs.len() - i,
    {
        let x = &xs[i];
        let ghost before = out@;
        out.push((RecordKind::Provider, x.provider.id.clone(), None));
        proof {
            assert(out@ =~= before.push(out@.last()));
            assert(provider_keys(xs@).take(i + 1) =~= provider_keys(xs@).take(i as int).push(provider_keys(xs@)[i as int]));
            assert(key_views(out@) =~= key_views(before).push(key_view(out@.last())));
        }
        i = i + 1;
    }
    proof {
        assert(provider_keys(xs@).take(xs@.len() as int) =~= provider_keys(xs@));
    }
}

/// The keys of the provider credential records, in order.
pub open spec fn provider_credential_keys(xs: Seq<(String, String)>) -> Seq<KeyView> {
    xs.map_values(|x: (String, String)| (RecordKind::ProviderCredential, x.0@, None))
}

fn push_provider_credential_keys(out: &mut Vec<RecordKey>, xs: &Vec<(String, String)>)
    ensures
        key_views(final(out)@) == key_views(old(out)@) + provider_credential_keys(xs@),
{
    let ghost start = key_views(out@);
    let mut i: usize = 0;
    while i < xs.len()
        invariant
            i <= xs.len(),
            key_views(out@) == start + provider_credential_keys(xs@).take(i as int),
        decreases xs.len() - i,
    {
        let x = &xs[i];
        let ghost before = out@;
        out.push((RecordKind::ProviderCredential, x.0.clone(), None));
        proof {
            assert(out@ =~= before.push(out@.last()));
            assert(provider_credential_keys(xs@).take(i + 1) =~= provider_credential_keys(xs@).take(i as int).push(provider_credential_keys(xs@)[i as int]));
            assert(key_views(out@) =~= key_views(before).push(key_view(out@.last())));
        }
        i = i + 1;
    }
    proof {
        assert(provider_credential_keys(xs@).take(xs@.len() as int) =~= provider_credential_keys(xs@));
    }
}

/// The keys of the session records, in order.
pub open spec fn session_keys(xs: Seq<SessionRecord>) -> Seq<KeyView> {
    xs.map_values(|x: SessionRecord| (RecordKind::Session, x.id@, Some(x.project_id@)))
}

fn push_session_keys(out: &mut Vec<RecordKey>, xs: &Vec<SessionRecord>)
    ensures
        key_views(final(out)@) == key_views(old(out)@) + session_keys(xs@),
{
    let ghost start = key_views(out@);
    let mut i: usize = 0;
    while i < xs.len()
        invariant
            i <= xs.len(),
            key_views(out@) == start + session_keys(xs@).take(i as int),
        decreases xs.len() - i,
    {
        let x = &xs[i];
        let ghost before = out@;
        out.push((RecordKind::Session, x.id.clone(), Some(x.project_id.clone())));
        proof {
            assert(out@ =~= before.push(out@.last()));
            assert(session_keys(xs@).take(i + 1) =~= session_keys(xs@).take(i as int).push(session_keys(xs@)[i as int]));
            assert(key_views(out@) =~= key_views(before).push(key_view(out@.last())));
        }
        i = i + 1;
    }
    proof {
        assert(session_keys(xs@).take(xs@.len() as int) =~= session_keys(xs@));
    }
}

/// The keys of the message records, in order.
pub open spec fn message_keys(xs: Seq<MessageRecord>) -> Seq<KeyView> {
    xs.map_values(|x: MessageRecord| (RecordKind::Message, x.id@, Some(x.project_id@)))
}

fn push_message_keys(out: &mut Vec<RecordKey>, xs: &Vec<MessageRecord>)
    ensures
        key_views(final(out)@) == key_views(old(out)@) + message_keys(xs@),
{
    let ghost start = key_views(out@);
    let mut i: usize = 0;
    while i < xs.len()
        invariant
            i <= xs.len(),
            key_views(out@) == start + message_keys(xs@).take(i as int),
        decreases xs.len() - i,
    {
        let x = &xs[i];
        let ghost before = out@;
        out.push((RecordKind::Message, x.id.clone(), Some(x.project_id.clone())));
        proof {
            assert(out@ =~= before.push(out@.last()));
            assert(message_keys(xs@).take(i + 1) =~= message_keys(xs@).take(i as int).push(message_keys(xs@)[i as int]));
            assert(key_views(out@) =~= key_views(before).push(key_view(out@.last())));
        }
        i = i + 1;
    }
    proof {
        assert(message_keys(xs@).take(xs@.len() as int) =~= message_keys(xs@));
    }
}

/// The keys of the run records, in order.
pub open spec fn run_keys(xs: Seq<RunRecord>) -> Seq<KeyView> {
    xs.map_values(|x: RunRecord| (RecordKind::Run, x.id@, Some(x.project_id@)))
}

fn push_run_keys(out: &mut Vec<RecordKey>, xs: &Vec<RunRecord>)
    ensures
        key_views(final(out)@) == key_views(old(out)@) + run_keys(xs@),
{
    let ghost start = key_views(out@);
    let mut i: usize = 0;
    while i < xs.len()
        invariant
            i <= xs.len(),
            key_views(out@) == start + run_keys(xs@).take(i as int),
        decreases xs.len() - i,
    {
        let x = &xs[i];
        let ghost before = out@;
        out.push((RecordKind::Run, x.id.clone(), Some(x.project_id.clone())));
        proof {
            assert(out@ =~= before.push(out@.last()));
            assert(run_keys(xs@).take(i + 1) =~= run_keys(xs@).take(i as int).push(run_keys(xs@)[i as int]));
            assert(key_views(out@) =~= key_views(before).push(key_view(out@.last())));
        }
        i = i + 1;
    }
    proof {
        assert(run_keys(xs@).take(xs@.len() as int) =~= run_keys(xs@));
    }
}

/// The keys of the cron records, in order.
pub open spec fn cron_keys(xs: Seq<CronRecord>) -> Seq<KeyView> {
    xs.map_values(|x: CronRecord| (RecordKind::Cron, x.id@, Some(x.project_id@)))
}

fn push_cron_keys(out: &mut Vec<RecordKey>, xs: &Vec<CronRecord>)
    ensures
        key_views(final(out)@) == key_views(old(out)@) + cron_keys(xs@),
{
    let ghost start = key_views(out@);
    let mut i: usize = 0;
    while i < xs.len()
        invariant
            i <= xs.len(),
            key_views(out@) == start + cron_keys(xs@).take(i as int),
        decreases xs.len() - i,
    {
        let x = &xs[i];
        let ghost before = out@;
        out.push((RecordKind::Cron, x.id.clone(), Some(x.project_id.clone())));
        proof {
            assert(out@ =~= before.push(out@.last()));
            assert(cron_keys(xs@).take(i + 1) =~= cron_keys(xs@).take(i as int).push(cron_keys(xs@)[i as int]));
            assert(key_views(out@) =~= key_views(before).push(key_view(out@.last())));
        }
        i = i + 1;
    }
    proof {
        assert(cron_keys(xs@).take(xs@.len() as int) =~= cron_keys(xs@));
    }
}

/// The Project of the last Run among the first `n` with id `id`, if any.
pub open spec fn run_project(runs: Seq<RunRecord>, id: Seq<char>, n: int) -> Option<Seq<char>>
    decreases n,
{
    if n <= 0 || n > runs.len() {
        None
    } else if runs[n - 1].id@ == id {
        Some(runs[n - 1].project_id@)
    } else {
        run_project(runs, id, n - 1)
    }
}

/// The Project of the Run with id `id` (the last such Run), if any.
pub open spec fn project_of_run(runs: Seq<RunRecord>, id: Seq<char>) -> Option<Seq<char>> {
    run_project(runs, id, runs.len() as int)
}

fn project_of_run_exec(runs: &Vec<RunRecord>, id: &str) -> (project: Option<String>)
    ensures
        opt_view(project) == project_of_run(runs@, id@),
{
    let mut n: usize = runs.len();
    while n > 0
        invariant
            n <= runs.len(),
            project_of_run(runs@, id@) == run_project(runs@, id@, n as int),
        decreases n,
    {
        if str_equals(runs[n - 1].id.as_str(), id) {
            return Some(runs[n - 1].project_id.clone());
        }
        n = n - 1;
    }
    None
}

/// The keys of the Run credentials: each in its Run's Project.
pub open spec fn run_credential_keys(credentials: Seq<(String, String)>, runs: Seq<RunRecord>) -> Seq<KeyView> {
    credentials.map_values(|c: (String, String)| (RecordKind::RunCredential, c.0@, project_of_run(runs, c.0@)))
}

/// The keys of the Run journals: each in its Run's Project.
pub open spec fn journal_keys(journals: Seq<RunJournal>, runs: Seq<RunRecord>) -> Seq<KeyView> {
    journals.map_values(|j: RunJournal| (RecordKind::WorkspaceRunJournal, j.run_id@, project_of_run(runs, j.run_id@)))
}

fn push_run_credential_keys(out: &mut Vec<RecordKey>, xs: &Vec<(String, String)>, runs: &Vec<RunRecord>)
    ensures
        key_views(final(out)@) == key_views(old(out)@) + run_credential_keys(xs@, runs@),
{
    let ghost start = key_views(out@);
    let mut i: usize = 0;
    while i < xs.len()
        invariant
            i <= xs.len(),
            key_views(out@) == start + run_credential_keys(xs@, runs@).take(i as int),
        decreases xs.len() - i,
    {
        let ghost before = out@;
        let project = project_of_run_exec(runs, xs[i].0.as_str());
        out.push((RecordKind::RunCredential, xs[i].0.clone(), project));
        proof {
            assert(out@ =~= before.push(out@.last()));
            let s = run_credential_keys(xs@, runs@);
            assert(s.take(i + 1) =~= s.take(i as int).push(s[i as int]));
            assert(key_views(out@) =~= key_views(before).push(key_view(out@.last())));
        }
        i = i + 1;
    }
    proof {
        let s = run_credential_keys(xs@, runs@);
        assert(s.take(s.len() as int) =~= s);
    }
}

fn push_journal_keys(out: &mut Vec<RecordKey>, xs: &Vec<RunJournal>, runs: &Vec<RunRecord>)
    ensures
        key_views(final(out)@) == key_views(old(out)@) + journal_keys(xs@, runs@),
{
    let ghost start = key_views(out@);
    let mut i: usize = 0;
    while i < xs.len()
        invariant
            i <= xs.len(),
            key_views(out@) == start + journal_keys(xs@, runs@).take(i as int),
        decreases xs.len() - i,
    {
        let ghost before = out@;
        let project = project_of_run_exec(runs, xs[i].run_id.as_str());
        out.push((RecordKind::WorkspaceRunJournal, xs[i].run_id.clone(), project));
        proof {
            assert(out@ =~= before.push(out@.last()));
            let s = journal_keys(xs@, runs@);
            assert(s.take(i + 1) =~= s.take(i as int).push(s[i as int]));
            assert(key_views(out@) =~= key_views(before).push(key_view(out@.last())));
        }
        i = i + 1;
    }
    proof {
        let s = journal_keys(xs@, runs@);
        assert(s.take(s.len() as int) =~= s);
    }
}

/// The stored records of a state, in order: Projects, Agents, providers,
/// provider credentials, Run credentials, Sessions, Messages, Runs, Run
/// journals, Crons, then the one settings record.
pub open spec fn record_keys_spec(state: ControlState) -> Seq<KeyView> {
    project_keys(state.work.projects@) + agent_keys(state.catalog.agents@) + provider_keys(
        state.catalog.providers@,
    ) + provider_credential_keys(state.catalog.provider_credentials@) + run_credential_keys(
        state.run_credentials@,
        state.work.runs@,
    ) + session_keys(state.work.sessions@) + message_keys(state.messages@) + run_keys(state.work.runs@)
        + journal_keys(state.work.journals@, state.work.runs@) + cron_keys(state.crons@) + seq![
        (RecordKind::Settings, "settings"@, None),
    ]
}

/// The key of every stored record of a state (see `record_keys_spec`).
pub fn record_keys(state: &ControlState) -> (keys: Vec<RecordKey>)
    ensures
        key_views(keys@) == record_keys_spec(*state),
{
    let mut keys: Vec<RecordKey> = Vec::new();
    proof {
        assert(key_views(keys@) =~= Seq::<KeyView>::empty());
    }
    push_project_keys(&mut keys, &state.work.projects);
    push_agent_keys(&mut keys, &state.catalog.agents);
    push_provider_keys(&mut keys, &state.catalog.providers);
    push_provider_credential_keys(&mut keys, &state.catalog.provider_credentials);
    push_run_credential_keys(&mut keys, &state.run_credentials, &state.work.runs);
    push_session_keys(&mut keys, &state.work.sessions);
    push_message_keys(&mut keys, &state.messages);
    push_run_keys(&mut keys, &state.work.runs);
    push_journal_keys(&mut keys, &state.work.journals, &state.work.runs);
    push_cron_keys(&mut keys, &state.crons);
    let ghost before = keys@;
    keys.push((RecordKind::Settings, String::from_str("settings"), None));
    proof {
        assert(keys@ =~= before.push(keys@.last()));
        assert(key_views(keys@) =~= key_views(before).push(key_view(keys@.last())));
        assert(key_views(keys@) =~= record_keys_spec(*state));
    }
    keys
}

/// A stored record: its key, the Project whose store holds it, and its
/// encoded value.
#[derive(Debug)]
pub struct ControlRecord {
    pub kind: RecordKind,
    pub id: String,
    pub project_id: Option<String>,
    /// The record's value as JSON text.
    pub value: String,
}

/// A change to write: a record to put, or the key of a record to delete.
#[derive(Debug)]
pub enum ControlChange {
    Put(ControlRecord),
    Delete { kind: RecordKind, id: String },
}

/// A record as the contracts read it.
pub type RecordView = (RecordKind, Seq<char>, Option<Seq<char>>, Seq<char>);

/// The view of a record.
pub open spec fn record_view(r: ControlRecord) -> RecordView {
    (r.kind, r.id@, opt_view(r.project_id), r.value@)
}

/// The views of records.
pub open spec fn record_views(records: Seq<ControlRecord>) -> Seq<RecordView> {
    records.map_values(|r: ControlRecord| record_view(r))
}

/// A change as the contracts read it.
pub enum ChangeView {
    Put(RecordView),
    Delete(RecordKind, Seq<char>),
}

/// The view of a change.
pub open spec fn change_view(c: ControlChange) -> ChangeView {
    match c {
        ControlChange::Put(r) => ChangeView::Put(record_view(r)),
        ControlChange::Delete { kind, id } => ChangeView::Delete(kind, id@),
    }
}

/// The views of changes.
pub open spec fn change_views(changes: Seq<ControlChange>) -> Seq<ChangeView> {
    changes.map_values(|c: ControlChange| change_view(c))
}

/// The first record with this kind and id, if any.
pub open spec fn record_with_key(records: Seq<RecordView>, kind: RecordKind, id: Seq<char>) -> Option<RecordView>
    decreases records.len(),
{
    if records.len() == 0 {
        None
    } else if records[0].0 == kind && records[0].1 == id {
        Some(records[0])
    } else {
        record_with_key(records.drop_first(), kind, id)
    }
}

/// The puts among the first `n` new records: each that is new or differs
/// from the stored record with its key.
pub open spec fn puts(old: Seq<RecordView>, new: Seq<RecordView>, n: int) -> Seq<ChangeView>
    decreases n,
{
    if n <= 0 || n > new.len() {
        Seq::empty()
    } else if record_with_key(old, new[n - 1].0, new[n - 1].1) == Some(new[n - 1]) {
        puts(old, new, n - 1)
    } else {
        puts(old, new, n - 1).push(ChangeView::Put(new[n - 1]))
    }
}

/// The deletes among the first `n` stored records: each whose key is gone.
pub open spec fn deletes(old: Seq<RecordView>, new: Seq<RecordView>, n: int) -> Seq<ChangeView>
    decreases n,
{
    if n <= 0 || n > old.len() {
        Seq::empty()
    } else if record_with_key(new, old[n - 1].0, old[n - 1].1) is Some {
        deletes(old, new, n - 1)
    } else {
        deletes(old, new, n - 1).push(ChangeView::Delete(old[n - 1].0, old[n - 1].1))
    }
}

/// The changes that turn the stored records `old` into `new`: a put for
/// each new or changed record of `new`, in order, then a delete for each
/// record of `old` whose key is gone, in order.
pub open spec fn changes_between(old: Seq<RecordView>, new: Seq<RecordView>) -> Seq<ChangeView> {
    puts(old, new, new.len() as int) + deletes(old, new, old.len() as int)
}

fn find_record(records: &Vec<ControlRecord>, kind: RecordKind, id: &str) -> (found: Option<usize>)
    ensures
        match found {
            Some(k) => k < records.len() && record_with_key(record_views(records@), kind, id@) == Some(
                record_view(records@[k as int]),
            ),
            None => record_with_key(record_views(records@), kind, id@) is None,
        },
{
    let ghost views = record_views(records@);
    proof {
        assert(views.skip(0) =~= views);
    }
    let mut i: usize = 0;
    while i < records.len()
        invariant
            i <= records.len(),
            views == record_views(records@),
            record_with_key(views, kind, id@) == record_with_key(views.skip(i as int), kind, id@),
        decreases records.len() - i,
    {
        proof {
            assert(views.skip(i as int).drop_first() =~= views.skip(i + 1));
            assert(views.skip(i as int)[0] == record_view(records@[i as int]));
        }
        if records[i].kind == kind && str_equals(records[i].id.as_str(), id) {
            return Some(i);
        }
        i = i + 1;
    }
    proof {
        assert(views.skip(i as int).len() == 0);
    }
    None
}

fn opt_text_equals(a: &Option<String>, b: &Option<String>) -> (same: bool)
    ensures
        same == (opt_view(*a) == opt_view(*b)),
{
    match (a, b) {
        (Some(x), Some(y)) => str_equals(x.as_str(), y.as_str()),
        (None, None) => true,
        _ => false,
    }
}

fn copy_record(r: &ControlRecord) -> (c: ControlRecord)
    ensures
        record_view(c) == record_view(*r),
{
    ControlRecord {
        kind: r.kind,
        id: r.id.clone(),
        project_id: match &r.project_id {
            Some(p) => Some(p.clone()),
            None => None,
        },
        value: r.value.clone(),
    }
}

/// The changes that turn the stored records `old` into `new` (see
/// `changes_between`).
pub fn record_changes(old: &Vec<ControlRecord>, new: &Vec<ControlRecord>) -> (changes: Vec<ControlChange>)
    ensures
        change_views(changes@) == changes_between(record_views(old@), record_views(new@)),
{
    let ghost o = record_views(old@);
    let ghost n = record_views(new@);
    let mut changes: Vec<ControlChange> = Vec::new();
    let mut i: usize = 0;
    proof {
        assert(change_views(changes@) =~= puts(o, n, 0));
    }
    while i < new.len()
        invariant
            i <= new.len(),
            o == record_views(old@),
            n == record_views(new@),
            change_views(changes@) == puts(o, n, i as int),
        decreases new.len() - i,
    {
        let r = &new[i];
        proof {
            assert(n[i as int] == record_view(*r));
        }
        let same = match find_record(old, r.kind, r.id.as_str()) {
            Some(k) => {
                let s = &old[k];
                str_equals(s.value.as_str(), r.value.as_str()) && opt_text_equals(&s.project_id, &r.project_id)
                    && str_equals(s.id.as_str(), r.id.as_str()) && s.kind == r.kind
            },
            None => false,
        };
        if !same {
            let ghost before = changes@;
            changes.push(ControlChange::Put(copy_record(r)));
            proof {
                assert(changes@ =~= before.push(changes@.last()));
                assert(change_views(changes@) =~= change_views(before).push(change_view(changes@.last())));
            }
        }
        i = i + 1;
    }
    let ghost put_views = change_views(changes@);
    let mut j: usize = 0;
    proof {
        assert(change_views(changes@) =~= put_views + deletes(o, n, 0));
    }
    while j < old.len()
        invariant
            j <= old.len(),
            o == record_views(old@),
            n == record_views(new@),
            put_views == puts(o, n, new.len() as int),
            change_views(changes@) == put_views + deletes(o, n, j as int),
        decreases old.len() - j,
    {
        let r = &old[j];
        proof {
            assert(o[j as int] == record_view(*r));
        }
        if find_record(new, r.kind, r.id.as_str()).is_none() {
            let ghost before = changes@;
            changes.push(ControlChange::Delete { kind: r.kind, id: r.id.clone() });
            proof {
                assert(changes@ =~= before.push(changes@.last()));
                assert(change_views(changes@) =~= change_views(before).push(change_view(changes@.last())));
            }
        }
        proof {
            assert(change_views(changes@) =~= put_views + deletes(o, n, j + 1));
        }
        j = j + 1;
    }
    changes
}

/// Some provider has id `id`.
pub open spec fn has_provider_id(providers: Seq<AgentProviderView>, id: Seq<char>) -> bool {
    exists|k: int| 0 <= k < providers.len() && (#[trigger] providers[k]).provider.id@ == id
}

/// A setting key of the retired per-model settings: it starts with `models.`.
pub open spec fn retired_setting(key: Seq<char>) -> bool {
    key.len() >= 7 && key.take(7) == "models."@
}

/// The first `n` setting entries without the retired ones, in order.
pub open spec fn kept_settings(entries: Seq<(String, SettingValue)>, n: int) -> Seq<(String, SettingValue)>
    decreases n,
{
    if n <= 0 {
        Seq::empty()
    } else if retired_setting(entries[n - 1].0@) {
        kept_settings(entries, n - 1)
    } else {
        kept_settings(entries, n - 1).push(entries[n - 1])
    }
}

fn is_retired_setting(key: &str) -> (r: bool)
    ensures
        r == retired_setting(key@),
{
    let chars = chars_of(key);
    let prefix = chars_of("models.");
    proof {
        reveal_strlit("models.");
    }
    if chars.len() < 7 {
        return false;
    }
    let mut i: usize = 0;
    while i < 7
        invariant
            i <= 7,
            chars@ == key@,
            prefix@ == "models."@,
            prefix@.len() == 7,
            chars@.len() >= 7,
            forall|j: int| 0 <= j < i ==> chars@[j] == prefix@[j],
        decreases 7 - i,
    {
        if chars[i] != prefix[i] {
            proof {
                assert(key@.take(7)[i as int] != "models."@[i as int]);
            }
            return false;
        }
        i = i + 1;
    }
    proof {
        assert(key@.take(7) =~= "models."@);
    }
    true
}

/// Completes a catalog loaded from storage: the built-in Codex provider is
/// added when no provider has its id, and settings of the retired
/// per-model kind (keys starting with `models.`) are dropped; nothing else
/// changes.
pub fn complete_loaded_catalog(catalog: &mut RunCatalog)
    ensures
        if has_provider_id(old(catalog).providers@, "builtin-codex"@) {
            final(catalog).providers@ == old(catalog).providers@
        } else {
            &&& final(catalog).providers@.len() == old(catalog).providers@.len() + 1
            &&& final(catalog).providers@.take(old(catalog).providers@.len() as int) == old(catalog).providers@
            &&& is_builtin_codex(final(catalog).providers@.last())
        },
        final(catalog).settings.entries@ == kept_settings(
            old(catalog).settings.entries@,
            old(catalog).settings.entries@.len() as int,
        ),
        final(catalog).agents == old(catalog).agents,
        final(catalog).provider_credentials == old(catalog).provider_credentials,
{
    let mut found = false;
    let mut k: usize = 0;
    while k < catalog.providers.len()
        invariant
            k <= catalog.providers.len(),
            *catalog == *old(catalog),
            found <==> exists|j: int| 0 <= j < k && (#[trigger] catalog.providers@[j]).provider.id@ == "builtin-codex"@,
        decreases catalog.providers.len() - k,
    {
        if str_equals(catalog.providers[k].provider.id.as_str(), "builtin-codex") {
            found = true;
        }
        k = k + 1;
    }
    if !found {
        let mut builtins = builtin_providers();
        let codex = builtins.remove(0);
        catalog.providers.push(codex);
        proof {
            assert(catalog.providers@.take(old(catalog).providers@.len() as int) =~= old(catalog).providers@);
        }
    }
    let ghost providers = catalog.providers;
    let mut rest: Vec<(String, SettingValue)> = Vec::new();
    std::mem::swap(&mut rest, &mut catalog.settings.entries);
    let ghost all = rest@;
    let n = rest.len();
    let mut i: usize = 0;
    while i < n
        invariant
            i <= n,
            n == all.len(),
            rest@ == all.skip(i as int),
            catalog.settings.entries@ == kept_settings(all, i as int),
            catalog.providers == providers,
            catalog.agents == old(catalog).agents,
            catalog.provider_credentials == old(catalog).provider_credentials,
        decreases n - i,
    {
        let entry = rest.remove(0);
        proof {
            assert(entry == all[i as int]);
            assert(rest@ =~= all.skip(i + 1));
        }
        if !is_retired_setting(entry.0.as_str()) {
            catalog.settings.entries.push(entry);
        }
        i = i + 1;
    }
}

/// No two records share a kind and id.
pub open spec fn distinct_keys(records: Seq<RecordView>) -> bool {
    forall|i: int, j: int|
        0 <= i < j < records.len() ==> !(#[trigger] records[i].0 == #[trigger] records[j].0 && records[i].1
            == records[j].1)
}

proof fn lemma_record_with_own_key(records: Seq<RecordView>, i: int)
    requires
        distinct_keys(records),
        0 <= i < records.len(),
    ensures
        record_with_key(records, records[i].0, records[i].1) == Some(records[i]),
    decreases records.len(),
{
    if i > 0 {
        let rest = records.drop_first();
        assert(!(records[0].0 == records[i].0 && records[0].1 == records[i].1));
        assert forall|a: int, b: int| 0 <= a < b < rest.len() implies !(#[trigger] rest[a].0 == #[trigger] rest[b].0
            && rest[a].1 == rest[b].1) by {
            assert(rest[a] == records[a + 1]);
            assert(rest[b] == records[b + 1]);
        }
        lemma_record_with_own_key(rest, i - 1);
    }
}

/// Writing a set of records over itself changes nothing: when no two
/// records share a key, the changes between them are none.
pub proof fn lemma_no_changes_without_a_change(records: Seq<RecordView>)
    requires
        distinct_keys(records),
    ensures
        changes_between(records, records) == Seq::<ChangeView>::empty(),
{
    assert forall|n: int| 0 <= n <= records.len() implies #[trigger] puts(records, records, n) == Seq::<ChangeView>::empty()
        && deletes(records, records, n) == Seq::<ChangeView>::empty() by {
        lemma_no_changes_prefix(records, n);
    }
    assert(changes_between(records, records) =~= Seq::<ChangeView>::empty());
}

proof fn lemma_no_changes_prefix(records: Seq<RecordView>, n: int)
    requires
        distinct_keys(records),
        0 <= n <= records.len(),
    ensures
        puts(records, records, n) == Seq::<ChangeView>::empty(),
        deletes(records, records, n) == Seq::<ChangeView>::empty(),
    decreases n,
{
    if n > 0 {
        lemma_no_changes_prefix(records, n - 1);
        lemma_record_with_own_key(records, n - 1);
    }
}

} // verus!
