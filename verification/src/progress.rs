//! Bounded live projection of a Run's progress events and its durable checkpoint.
use vstd::prelude::*;
use crate::clock::now;
use crate::json::{
    json_array, json_bool, json_int, json_list, json_opt_string, json_string, json_string_array,
    opt_view, push_decimal, push_json_bool, push_json_i64, push_json_opt_string, push_json_string,
    push_json_string_array, push_text,
};
use crate::text::{
    bounded, bounded_chars, bounded_identifier_text, bounded_identifier_with_hash, bounded_to,
    default_hash, std_default_hash, lemma_bounded_chars_fit, lemma_utf8_concat, push_str, str_equals, texts, utf8,
    MAX_IDENTIFIER_BYTES, MAX_LIVE_MESSAGE_BYTES,
};

verus! {

/// Upper bound of one serialized progress checkpoint.
pub const MAX_PROGRESS_CHECKPOINT_BYTES: usize = 786432;

/// Upper bound of the projected messages and operations.
pub const MAX_PROJECTED_ITEMS: usize = 512;

/// Upper bound of the retained warnings.
pub const MAX_WARNINGS: usize = 8;

/// Upper bound of a warning or error text.
pub const MAX_WARNING_BYTES: usize = 8192;

/// Upper bound of an operation's title, summary and detail.
pub const MAX_OPERATION_TEXT_BYTES: usize = 65536;

/// Upper bound of the paths kept for one operation.
pub const MAX_OPERATION_PATHS: usize = 64;

/// Upper bound of one operation path.
pub const MAX_OPERATION_PATH_BYTES: usize = 1024;

/// Status length kept when even an empty projection exceeds the checkpoint budget.
pub const MAX_FALLBACK_STATUS_BYTES: usize = 32;

/// The Run a projection belongs to.
#[derive(Debug)]
pub struct ProgressIdentity {
    pub run: String,
    pub project: String,
    pub session: Option<String>,
}

/// A tool or command step reported by the workspace agent.
#[derive(Debug)]
pub struct WorkspaceOperation {
    pub id: String,
    pub kind: String,
    pub status: String,
    pub title: String,
    pub summary: Option<String>,
    pub detail: Option<String>,
    pub paths: Vec<String>,
}

/// The content of a `WorkspaceOperation`.
pub struct OperationView {
    pub id: Seq<char>,
    pub kind: Seq<char>,
    pub status: Seq<char>,
    pub title: Seq<char>,
    pub summary: Option<Seq<char>>,
    pub detail: Option<Seq<char>>,
    pub paths: Seq<Seq<char>>,
}

impl View for WorkspaceOperation {
    type V = OperationView;

    open spec fn view(&self) -> OperationView {
        OperationView {
            id: self.id@,
            kind: self.kind@,
            status: self.status@,
            title: self.title@,
            summary: opt_view(self.summary),
            detail: opt_view(self.detail),
            paths: texts(self.paths@),
        }
    }
}

/// One projected message or operation.
#[derive(Debug)]
pub enum ProjectedItem {
    Message { phase: Option<String>, text: String, completed: bool },
    Operation(WorkspaceOperation),
}

/// The content of a `ProjectedItem`.
pub enum ItemView {
    Message { phase: Option<Seq<char>>, text: Seq<char>, completed: bool },
    Operation(OperationView),
}

impl View for ProjectedItem {
    type V = ItemView;

    open spec fn view(&self) -> ItemView {
        match self {
            ProjectedItem::Message { phase, text, completed } => ItemView::Message {
                phase: opt_view(*phase),
                text: text@,
                completed: *completed,
            },
            ProjectedItem::Operation(operation) => ItemView::Operation(operation@),
        }
    }
}

/// A retained warning.
#[derive(Debug)]
pub struct ProgressWarning {
    pub message: String,
    pub retrying: bool,
    pub code: Option<String>,
}

/// The content of a `ProgressWarning`.
pub struct WarningView {
    pub message: Seq<char>,
    pub retrying: bool,
    pub code: Option<Seq<char>>,
}

impl View for ProgressWarning {
    type V = WarningView;

    open spec fn view(&self) -> WarningView {
        WarningView { message: self.message@, retrying: self.retrying, code: opt_view(self.code) }
    }
}

/// The abstract state of a projection: items in arrival order, keyed by id.
pub struct ProgressState {
    pub seq: u64,
    pub status: Seq<char>,
    pub order: Seq<Seq<char>>,
    pub items: Seq<ItemView>,
    pub warnings: Seq<WarningView>,
    pub dropped_items: usize,
    pub dropped_warnings: usize,
}

/// The bounded live projection of one Run.
#[derive(Debug)]
pub struct ProgressProjection {
    pub seq: u64,
    status: String,
    order: Vec<String>,
    items: Vec<ProjectedItem>,
    warnings: Vec<ProgressWarning>,
    dropped_items: usize,
    dropped_warnings: usize,
}

impl View for ProgressProjection {
    type V = ProgressState;

    closed spec fn view(&self) -> ProgressState {
        ProgressState {
            seq: self.seq,
            status: self.status@,
            order: texts(self.order@),
            items: self.items@.map_values(|item: ProjectedItem| item@),
            warnings: self.warnings@.map_values(|warning: ProgressWarning| warning@),
            dropped_items: self.dropped_items,
            dropped_warnings: self.dropped_warnings,
        }
    }
}

/// No id occurs twice.
pub open spec fn distinct_ids(order: Seq<Seq<char>>) -> bool {
    forall|i: int, j: int| 0 <= i < order.len() && 0 <= j < order.len() && i != j ==> order[i] != order[j]
}

/// Well-formedness of a projection state.
pub open spec fn state_wf(s: ProgressState) -> bool {
    &&& s.order.len() == s.items.len()
    &&& s.order.len() <= MAX_PROJECTED_ITEMS
    &&& s.warnings.len() <= MAX_WARNINGS
    &&& distinct_ids(s.order)
}

/// `n + 1`, saturating at `usize::MAX`.
pub open spec fn saturating_inc(n: usize) -> usize {
    if n == usize::MAX {
        n
    } else {
        (n + 1) as usize
    }
}

/// An empty projection with the given status.
pub open spec fn initial_state(status: Seq<char>) -> ProgressState {
    ProgressState {
        seq: 0,
        status,
        order: Seq::empty(),
        items: Seq::empty(),
        warnings: Seq::empty(),
        dropped_items: 0,
        dropped_warnings: 0,
    }
}

/// Stores `item` under `id`: an id seen before keeps its place; a new id goes
/// last, evicting the oldest item when `MAX_PROJECTED_ITEMS` are held.
pub open spec fn upsert(s: ProgressState, id: Seq<char>, item: ItemView) -> ProgressState {
    if s.order.contains(id) {
        ProgressState { items: s.items.update(s.order.index_of(id), item), ..s }
    } else if s.order.len() >= MAX_PROJECTED_ITEMS {
        ProgressState {
            order: s.order.drop_first().push(id),
            items: s.items.drop_first().push(item),
            dropped_items: saturating_inc(s.dropped_items),
            ..s
        }
    } else {
        ProgressState { order: s.order.push(id), items: s.items.push(item), ..s }
    }
}

proof fn lemma_upsert_wf(s: ProgressState, id: Seq<char>, item: ItemView)
    requires
        state_wf(s),
    ensures
        state_wf(upsert(s, id, item)),
        upsert(s, id, item).order.contains(id),
        upsert(s, id, item).items[upsert(s, id, item).order.index_of(id)] == item,
{
    let r = upsert(s, id, item);
    if s.order.contains(id) {
        s.order.index_of_first_ensures(id);
        let i = s.order.index_of(id);
        assert(r.order.index_of(id) == i);
    } else if s.order.len() >= MAX_PROJECTED_ITEMS {
        let o = s.order.drop_first().push(id);
        assert(o[o.len() - 1] == id);
        assert forall|i: int, j: int| 0 <= i < o.len() && 0 <= j < o.len() && i != j implies o[i]
            != o[j] by {
            if i < o.len() - 1 && j < o.len() - 1 {
                assert(o[i] == s.order[i + 1]);
                assert(o[j] == s.order[j + 1]);
            } else if i < o.len() - 1 {
                assert(o[i] == s.order[i + 1]);
            } else {
                assert(o[j] == s.order[j + 1]);
            }
        }
        assert(o.contains(id));
        o.index_of_first_ensures(id);
        assert(o.index_of(id) == o.len() - 1);
    } else {
        let o = s.order.push(id);
        assert(o[o.len() - 1] == id);
        assert forall|i: int, j: int| 0 <= i < o.len() && 0 <= j < o.len() && i != j implies o[i]
            != o[j] by {
            if i < o.len() - 1 && j < o.len() - 1 {
            } else if i < o.len() - 1 {
                assert(o[i] == s.order[i]);
            } else {
                assert(o[j] == s.order[j]);
            }
        }
        assert(o.contains(id));
        o.index_of_first_ensures(id);
        assert(o.index_of(id) == o.len() - 1);
    }
}

impl ProgressProjection {
    /// Well-formedness: one item per id, ids distinct, bounds respected.
    pub closed spec fn wf(&self) -> bool {
        &&& self.order@.len() == self.items@.len()
        &&& state_wf(self@)
    }

    /// An empty projection with the given status.
    pub fn with_status(status: String) -> (projection: Self)
        ensures
            projection.wf(),
            projection@ == initial_state(status@),
    {
        let projection = ProgressProjection {
            seq: 0,
            status,
            order: Vec::new(),
            items: Vec::new(),
            warnings: Vec::new(),
            dropped_items: 0,
            dropped_warnings: 0,
        };
        proof {
            assert(projection@.order =~= Seq::<Seq<char>>::empty());
            assert(projection@.items =~= Seq::<ItemView>::empty());
            assert(projection@.warnings =~= Seq::<WarningView>::empty());
        }
        projection
    }

    /// The current turn status.
    pub fn status(&self) -> (status: &String)
        ensures
            status@ == self@.status,
    {
        &self.status
    }

    /// The ids of the projected items, oldest first.
    pub fn item_ids(&self) -> (ids: &[String])
        ensures
            texts(ids@) == self@.order,
    {
        self.order.as_slice()
    }

    /// The number of retained warnings.
    pub fn warning_count(&self) -> (count: usize)
        ensures
            count == self@.warnings.len(),
    {
        self.warnings.len()
    }

    /// How many items were evicted.
    pub fn dropped_items(&self) -> (count: usize)
        ensures
            count == self@.dropped_items,
    {
        self.dropped_items
    }

    /// How many warnings were evicted.
    pub fn dropped_warnings(&self) -> (count: usize)
        ensures
            count == self@.dropped_warnings,
    {
        self.dropped_warnings
    }

    /// The position of `id` among the projected items, if it is there.
    fn find(&self, id: &str) -> (index: Option<usize>)
        requires
            self.wf(),
        ensures
            match index {
                Some(i) => i < self.order@.len() && self@.order.contains(id@) && i
                    == self@.order.index_of(id@),
                None => !self@.order.contains(id@),
            },
    {
        let mut i: usize = 0;
        while i < self.order.len()
            invariant
                self.wf(),
                i <= self.order@.len(),
                forall|j: int| 0 <= j < i ==> self@.order[j] != id@,
            decreases self.order.len() - i,
        {
            if str_equals(self.order[i].as_str(), id) {
                proof {
                    assert(self@.order[i as int] == id@);
                    assert(self@.order.contains(id@));
                    self@.order.index_of_first_ensures(id@);
                }
                return Some(i);
            }
            i = i + 1;
        }
        proof {
            if self@.order.contains(id@) {
                let k = choose|k: int| 0 <= k < self@.order.len() && self@.order[k] == id@;
                assert(self@.order[k] != id@);
            }
        }
        None
    }

    /// Replaces the item at `index`.
    fn set_item(&mut self, index: usize, item: ProjectedItem)
        requires
            old(self).wf(),
            index < old(self).items@.len(),
        ensures
            final(self).wf(),
            final(self)@ == (ProgressState {
                items: old(self)@.items.update(index as int, item@),
                ..old(self)@
            }),
    {
        let _previous = self.items.remove(index);
        self.items.insert(index, item);
        proof {
            assert(self@.items =~= old(self)@.items.update(index as int, item@));
        }
    }

    /// Stores `item` under `id` (see `upsert`) and returns its position.
    pub fn insert_item(&mut self, id: String, item: ProjectedItem) -> (index: usize)
        requires
            old(self).wf(),
        ensures
            final(self).wf(),
            final(self)@ == upsert(old(self)@, id@, item@),
            index < final(self)@.order.len(),
            final(self)@.order.contains(id@),
            index == final(self)@.order.index_of(id@),
    {
        proof {
            lemma_upsert_wf(old(self)@, id@, item@);
        }
        match self.find(id.as_str()) {
            Some(i) => {
                self.set_item(i, item);
                i
            },
            None => {
                if self.order.len() >= MAX_PROJECTED_ITEMS {
                    let _evicted_id = self.order.remove(0);
                    let _evicted_item = self.items.remove(0);
                    self.dropped_items = self.dropped_items.saturating_add(1);
                }
                self.order.push(id);
                self.items.push(item);
                proof {
                    let r = upsert(old(self)@, id@, item@);
                    assert(self@.order =~= r.order);
                    assert(self@.items =~= r.items);
                }
                self.order.len() - 1
            },
        }
    }
}


/// An event reported by the workspace agent while a Run executes.
#[derive(Debug)]
pub enum ProgressEvent {
    MessageStarted { id: String, phase: Option<String>, text: String },
    TextDelta { id: String, delta: String },
    MessageCompleted { id: String, phase: Option<String>, text: String },
    OperationStarted(WorkspaceOperation),
    OperationCompleted(WorkspaceOperation),
    Warning { message: String, retrying: bool, code: Option<String> },
    TurnStatus { status: String, error: Option<String> },
}

/// The content of a `ProgressEvent`.
pub enum EventView {
    MessageStarted { id: Seq<char>, phase: Option<Seq<char>>, text: Seq<char> },
    TextDelta { id: Seq<char>, delta: Seq<char> },
    MessageCompleted { id: Seq<char>, phase: Option<Seq<char>>, text: Seq<char> },
    OperationStarted(OperationView),
    OperationCompleted(OperationView),
    Warning { message: Seq<char>, retrying: bool, code: Option<Seq<char>> },
    TurnStatus { status: Seq<char>, error: Option<Seq<char>> },
}

impl View for ProgressEvent {
    type V = EventView;

    open spec fn view(&self) -> EventView {
        match self {
            ProgressEvent::MessageStarted { id, phase, text } => EventView::MessageStarted {
                id: id@,
                phase: opt_view(*phase),
                text: text@,
            },
            ProgressEvent::TextDelta { id, delta } => EventView::TextDelta {
                id: id@,
                delta: delta@,
            },
            ProgressEvent::MessageCompleted { id, phase, text } => EventView::MessageCompleted {
                id: id@,
                phase: opt_view(*phase),
                text: text@,
            },
            ProgressEvent::OperationStarted(operation) => EventView::OperationStarted(operation@),
            ProgressEvent::OperationCompleted(operation) => EventView::OperationCompleted(
                operation@,
            ),
            ProgressEvent::Warning { message, retrying, code } => EventView::Warning {
                message: message@,
                retrying: *retrying,
                code: opt_view(*code),
            },
            ProgressEvent::TurnStatus { status, error } => EventView::TurnStatus {
                status: status@,
                error: opt_view(*error),
            },
        }
    }
}

/// The event-specific part of a published progress envelope.
#[derive(Debug)]
pub enum EnvelopeBody {
    MessageStarted { phase: Option<String>, text: String },
    TextDelta { delta: String },
    MessageCompleted { phase: Option<String>, text: String },
    OperationStarted(WorkspaceOperation),
    OperationCompleted(WorkspaceOperation),
    Warning(ProgressWarning),
    TurnStatus { status: String, error: Option<String> },
}

/// The content of an `EnvelopeBody`.
pub enum EnvelopeBodyView {
    MessageStarted { phase: Option<Seq<char>>, text: Seq<char> },
    TextDelta { delta: Seq<char> },
    MessageCompleted { phase: Option<Seq<char>>, text: Seq<char> },
    OperationStarted(OperationView),
    OperationCompleted(OperationView),
    Warning(WarningView),
    TurnStatus { status: Seq<char>, error: Option<Seq<char>> },
}

impl View for EnvelopeBody {
    type V = EnvelopeBodyView;

    open spec fn view(&self) -> EnvelopeBodyView {
        match self {
            EnvelopeBody::MessageStarted { phase, text } => EnvelopeBodyView::MessageStarted {
                phase: opt_view(*phase),
                text: text@,
            },
            EnvelopeBody::TextDelta { delta } => EnvelopeBodyView::TextDelta { delta: delta@ },
            EnvelopeBody::MessageCompleted { phase, text } => EnvelopeBodyView::MessageCompleted {
                phase: opt_view(*phase),
                text: text@,
            },
            EnvelopeBody::OperationStarted(operation) => EnvelopeBodyView::OperationStarted(
                operation@,
            ),
            EnvelopeBody::OperationCompleted(operation) => EnvelopeBodyView::OperationCompleted(
                operation@,
            ),
            EnvelopeBody::Warning(warning) => EnvelopeBodyView::Warning(warning@),
            EnvelopeBody::TurnStatus { status, error } => EnvelopeBodyView::TurnStatus {
                status: status@,
                error: opt_view(*error),
            },
        }
    }
}

/// One `run.progress` envelope: its sequence number, the item it concerns and its body.
#[derive(Debug)]
pub struct ProgressEnvelope {
    pub seq: u64,
    pub item_id: Option<String>,
    pub body: EnvelopeBody,
}

/// The content of a `ProgressEnvelope`.
pub struct EnvelopeView {
    pub seq: u64,
    pub item_id: Option<Seq<char>>,
    pub body: EnvelopeBodyView,
}

impl View for ProgressEnvelope {
    type V = EnvelopeView;

    open spec fn view(&self) -> EnvelopeView {
        EnvelopeView { seq: self.seq, item_id: opt_view(self.item_id), body: self.body@ }
    }
}

/// An optional text bounded to `limit` bytes.
pub open spec fn bounded_opt(value: Option<Seq<char>>, limit: int) -> Option<Seq<char>> {
    match value {
        Some(v) => Some(bounded_chars(v, limit)),
        None => None,
    }
}

/// An operation with every field bounded; `hash` is that of its full id.
pub open spec fn bounded_operation_view(operation: OperationView, hash: u64) -> OperationView {
    let kept = if operation.paths.len() <= MAX_OPERATION_PATHS {
        operation.paths
    } else {
        operation.paths.take(MAX_OPERATION_PATHS as int)
    };
    OperationView {
        id: bounded_identifier_text(operation.id, hash),
        kind: bounded_chars(operation.kind, MAX_IDENTIFIER_BYTES as int),
        status: bounded_chars(operation.status, MAX_IDENTIFIER_BYTES as int),
        title: bounded_chars(operation.title, MAX_OPERATION_TEXT_BYTES as int),
        summary: bounded_opt(operation.summary, MAX_OPERATION_TEXT_BYTES as int),
        detail: bounded_opt(operation.detail, MAX_OPERATION_TEXT_BYTES as int),
        paths: kept.map_values(|path: Seq<char>| bounded_chars(path, MAX_OPERATION_PATH_BYTES as int)),
    }
}

/// How many more live-message bytes a text of `used` bytes may take.
pub open spec fn remaining_message_bytes(used: int) -> int {
    if used >= MAX_LIVE_MESSAGE_BYTES {
        0
    } else {
        MAX_LIVE_MESSAGE_BYTES - used
    }
}

/// The state after storing message `id` with a bounded phase and text, and
/// the bounded id, phase and text published with it.
pub open spec fn message_spec(
    s: ProgressState,
    id: Seq<char>,
    phase: Option<Seq<char>>,
    text: Seq<char>,
    completed: bool,
    hash: u64,
) -> (ProgressState, Seq<char>, Option<Seq<char>>, Seq<char>) {
    let id = bounded_identifier_text(id, hash);
    let phase = bounded_opt(phase, MAX_IDENTIFIER_BYTES as int);
    let text = bounded_chars(text, MAX_LIVE_MESSAGE_BYTES as int);
    (upsert(s, id, ItemView::Message { phase, text, completed }), id, phase, text)
}

/// The state after appending `delta` to message `id` (created empty when
/// absent), the bounded id, and the accepted part of the delta.
pub open spec fn delta_spec(s: ProgressState, id: Seq<char>, delta: Seq<char>, hash: u64) -> (
    ProgressState,
    Seq<char>,
    Seq<char>,
) {
    let id = bounded_identifier_text(id, hash);
    let s1 = if s.order.contains(id) {
        s
    } else {
        upsert(s, id, ItemView::Message { phase: None, text: Seq::empty(), completed: false })
    };
    let i = s1.order.index_of(id);
    match s1.items[i] {
        ItemView::Message { phase, text, completed } => {
            let accepted = bounded_chars(delta, remaining_message_bytes(utf8(text).len() as int));
            (
                ProgressState {
                    items: s1.items.update(i, ItemView::Message { phase, text: text + accepted, completed }),
                    ..s1
                },
                id,
                accepted,
            )
        },
        ItemView::Operation(_) => (s1, id, Seq::empty()),
    }
}

/// The bounded warning kept for a warning event.
pub open spec fn warning_view(
    message: Seq<char>,
    retrying: bool,
    code: Option<Seq<char>>,
    hash: u64,
) -> WarningView {
    WarningView {
        message: bounded_chars(message, MAX_WARNING_BYTES as int),
        retrying,
        code: match code {
            Some(c) => Some(bounded_identifier_text(c, hash)),
            None => None,
        },
    }
}

/// The state after retaining `warning`, evicting the oldest of `MAX_WARNINGS`.
pub open spec fn warning_spec(s: ProgressState, warning: WarningView) -> ProgressState {
    if s.warnings.len() >= MAX_WARNINGS {
        ProgressState {
            warnings: s.warnings.drop_first().push(warning),
            dropped_warnings: saturating_inc(s.dropped_warnings),
            ..s
        }
    } else {
        ProgressState { warnings: s.warnings.push(warning), ..s }
    }
}

/// A message event stores its message under the event's bounded id: a
/// started message is not completed, a completed one is, and either keeps
/// its bounded phase and text.
pub proof fn lemma_message_events_record_completion(s: ProgressState, event: EventView, hash: u64)
    requires
        state_wf(s),
    ensures
        event matches EventView::MessageStarted { id, phase, text } ==> {
            let r = apply_spec(s, event, hash).0;
            let b = bounded_identifier_text(id, hash);
            &&& r.order.contains(b)
            &&& r.items[r.order.index_of(b)] == ItemView::Message {
                phase: bounded_opt(phase, MAX_IDENTIFIER_BYTES as int),
                text: bounded_chars(text, MAX_LIVE_MESSAGE_BYTES as int),
                completed: false,
            }
        },
        event matches EventView::MessageCompleted { id, phase, text } ==> {
            let r = apply_spec(s, event, hash).0;
            let b = bounded_identifier_text(id, hash);
            &&& r.order.contains(b)
            &&& r.items[r.order.index_of(b)] == ItemView::Message {
                phase: bounded_opt(phase, MAX_IDENTIFIER_BYTES as int),
                text: bounded_chars(text, MAX_LIVE_MESSAGE_BYTES as int),
                completed: true,
            }
        },
{
    match event {
        EventView::MessageStarted { id, phase, text } => {
            lemma_upsert_wf(
                s,
                bounded_identifier_text(id, hash),
                ItemView::Message {
                    phase: bounded_opt(phase, MAX_IDENTIFIER_BYTES as int),
                    text: bounded_chars(text, MAX_LIVE_MESSAGE_BYTES as int),
                    completed: false,
                },
            );
        },
        EventView::MessageCompleted { id, phase, text } => {
            lemma_upsert_wf(
                s,
                bounded_identifier_text(id, hash),
                ItemView::Message {
                    phase: bounded_opt(phase, MAX_IDENTIFIER_BYTES as int),
                    text: bounded_chars(text, MAX_LIVE_MESSAGE_BYTES as int),
                    completed: true,
                },
            );
        },
        _ => {},
    }
}

/// Every stored message text encodes in at most `MAX_LIVE_MESSAGE_BYTES`.
pub open spec fn messages_fit(s: ProgressState) -> bool {
    forall|i: int|
        0 <= i < s.items.len() ==> (#[trigger] s.items[i] matches ItemView::Message { text, .. }
            ==> utf8(text).len() <= MAX_LIVE_MESSAGE_BYTES)
}

/// An item that is a message encodes its text in at most `MAX_LIVE_MESSAGE_BYTES`.
pub open spec fn item_fits(item: ItemView) -> bool {
    item matches ItemView::Message { text, .. } ==> utf8(text).len() <= MAX_LIVE_MESSAGE_BYTES
}

proof fn lemma_upsert_fits(s: ProgressState, id: Seq<char>, item: ItemView)
    requires
        state_wf(s),
        messages_fit(s),
        item_fits(item),
    ensures
        messages_fit(upsert(s, id, item)),
{
    let r = upsert(s, id, item);
    assert forall|i: int| 0 <= i < r.items.len() implies (#[trigger] r.items[i] matches ItemView::Message {
        text,
        ..
    } ==> utf8(text).len() <= MAX_LIVE_MESSAGE_BYTES) by {
        if s.order.contains(id) {
            if i != s.order.index_of(id) {
                assert(r.items[i] == s.items[i]);
            }
        } else if s.order.len() >= MAX_PROJECTED_ITEMS {
            if i < r.items.len() - 1 {
                assert(r.items[i] == s.items[i + 1]);
            }
        } else {
            if i < s.items.len() {
                assert(r.items[i] == s.items[i]);
            }
        }
    }
}

/// Applying any event keeps every stored message text within
/// `MAX_LIVE_MESSAGE_BYTES`.
#[verifier::spinoff_prover]
#[verifier::rlimit(40)]
pub proof fn lemma_messages_stay_bounded(s: ProgressState, event: EventView, hash: u64)
    requires
        state_wf(s),
        messages_fit(s),
    ensures
        messages_fit(apply_spec(s, event, hash).0),
{
    match event {
        EventView::MessageStarted { id, phase, text } => {
            lemma_bounded_chars_fit(text, MAX_LIVE_MESSAGE_BYTES as int);
            let b = bounded_identifier_text(id, hash);
            lemma_upsert_fits(
                s,
                b,
                ItemView::Message {
                    phase: bounded_opt(phase, MAX_IDENTIFIER_BYTES as int),
                    text: bounded_chars(text, MAX_LIVE_MESSAGE_BYTES as int),
                    completed: false,
                },
            );
        },
        EventView::MessageCompleted { id, phase, text } => {
            lemma_bounded_chars_fit(text, MAX_LIVE_MESSAGE_BYTES as int);
            let b = bounded_identifier_text(id, hash);
            lemma_upsert_fits(
                s,
                b,
                ItemView::Message {
                    phase: bounded_opt(phase, MAX_IDENTIFIER_BYTES as int),
                    text: bounded_chars(text, MAX_LIVE_MESSAGE_BYTES as int),
                    completed: true,
                },
            );
        },
        EventView::TextDelta { id, delta } => {
            let b = bounded_identifier_text(id, hash);
            let empty = ItemView::Message { phase: None, text: Seq::empty(), completed: false };
            let s1 = if s.order.contains(b) {
                s
            } else {
                upsert(s, b, empty)
            };
            if !s.order.contains(b) {
                assert(utf8(Seq::<char>::empty()) =~= Seq::<u8>::empty());
                lemma_upsert_fits(s, b, empty);
                lemma_upsert_wf(s, b, empty);
            } else {
                s.order.index_of_first_ensures(b);
            }
            assert(state_wf(s1));
            assert(s1.order.contains(b));
            s1.order.index_of_first_ensures(b);
            let i = s1.order.index_of(b);
            assert(0 <= i < s1.items.len());
            match s1.items[i] {
                ItemView::Message { phase, text, completed } => {
                    let used = utf8(text).len() as int;
                    let accepted = bounded_chars(delta, remaining_message_bytes(used));
                    lemma_bounded_chars_fit(delta, remaining_message_bytes(used));
                    lemma_utf8_concat(text, accepted);
                    let r = apply_spec(s, event, hash).0;
                    assert forall|k: int| 0 <= k < r.items.len() implies (#[trigger] r.items[k] matches ItemView::Message {
                        text,
                        ..
                    } ==> utf8(text).len() <= MAX_LIVE_MESSAGE_BYTES) by {
                        if k != i {
                            assert(r.items[k] == s1.items[k]);
                        }
                    }
                },
                ItemView::Operation(_) => {},
            }
        },
        EventView::OperationStarted(operation) => {
            let operation = bounded_operation_view(operation, hash);
            lemma_upsert_fits(s, operation.id, ItemView::Operation(operation));
        },
        EventView::OperationCompleted(operation) => {
            let operation = bounded_operation_view(operation, hash);
            lemma_upsert_fits(s, operation.id, ItemView::Operation(operation));
        },
        _ => {},
    }
}

/// The effect of one event on a projection, and the envelope published for it.
/// `hash` is the hash of the event's identifier (item id, or warning code).
pub open spec fn apply_spec(s: ProgressState, event: EventView, hash: u64) -> (
    ProgressState,
    EnvelopeView,
) {
    match event {
        EventView::MessageStarted { id, phase, text } => {
            let r = message_spec(s, id, phase, text, false, hash);
            (
                r.0,
                EnvelopeView {
                    seq: s.seq,
                    item_id: Some(r.1),
                    body: EnvelopeBodyView::MessageStarted { phase: r.2, text: r.3 },
                },
            )
        },
        EventView::TextDelta { id, delta } => {
            let r = delta_spec(s, id, delta, hash);
            (
                r.0,
                EnvelopeView {
                    seq: s.seq,
                    item_id: Some(r.1),
                    body: EnvelopeBodyView::TextDelta { delta: r.2 },
                },
            )
        },
        EventView::MessageCompleted { id, phase, text } => {
            let r = message_spec(s, id, phase, text, true, hash);
            (
                r.0,
                EnvelopeView {
                    seq: s.seq,
                    item_id: Some(r.1),
                    body: EnvelopeBodyView::MessageCompleted { phase: r.2, text: r.3 },
                },
            )
        },
        EventView::OperationStarted(operation) => {
            let operation = bounded_operation_view(operation, hash);
            (
                upsert(s, operation.id, ItemView::Operation(operation)),
                EnvelopeView {
                    seq: s.seq,
                    item_id: Some(operation.id),
                    body: EnvelopeBodyView::OperationStarted(operation),
                },
            )
        },
        EventView::OperationCompleted(operation) => {
            let operation = bounded_operation_view(operation, hash);
            (
                upsert(s, operation.id, ItemView::Operation(operation)),
                EnvelopeView {
                    seq: s.seq,
                    item_id: Some(operation.id),
                    body: EnvelopeBodyView::OperationCompleted(operation),
                },
            )
        },
        EventView::Warning { message, retrying, code } => {
            let warning = warning_view(message, retrying, code, hash);
            (
                warning_spec(s, warning),
                EnvelopeView { seq: s.seq, item_id: None, body: EnvelopeBodyView::Warning(warning) },
            )
        },
        EventView::TurnStatus { status, error } => {
            let status = bounded_chars(status, MAX_IDENTIFIER_BYTES as int);
            (
                ProgressState { status, ..s },
                EnvelopeView {
                    seq: s.seq,
                    item_id: None,
                    body: EnvelopeBodyView::TurnStatus {
                        status,
                        error: bounded_opt(error, MAX_WARNING_BYTES as int),
                    },
                },
            )
        },
    }
}

/// Bounds an optional text.
fn bound_opt(value: Option<String>, limit: usize) -> (result: Option<String>)
    ensures
        opt_view(result) == bounded_opt(opt_view(value), limit as int),
{
    match value {
        Some(v) => Some(bounded_to(v, limit)),
        None => None,
    }
}

/// A copy of an optional text.
fn copy_opt(value: &Option<String>) -> (result: Option<String>)
    ensures
        opt_view(result) == opt_view(*value),
{
    match value {
        Some(v) => Some(v.clone()),
        None => None,
    }
}

/// A copy of a list of texts.
fn copy_texts(values: &Vec<String>) -> (result: Vec<String>)
    ensures
        texts(result@) == texts(values@),
{
    let mut copies: Vec<String> = Vec::new();
    let mut i: usize = 0;
    while i < values.len()
        invariant
            i <= values.len(),
            texts(copies@) == texts(values@).take(i as int),
        decreases values.len() - i,
    {
        let copy = values[i].clone();
        proof {
            assert(copy@ == texts(values@)[i as int]);
        }
        let ghost before = copies@;
        copies.push(copy);
        proof {
            assert(copies@ == before.push(copy));
            assert(texts(copies@) =~= texts(before).push(copy@));
            assert(texts(values@).take(i + 1) =~= texts(values@).take(i as int).push(
                texts(values@)[i as int],
            ));
        }
        i = i + 1;
    }
    proof {
        assert(texts(values@).take(i as int) =~= texts(values@));
    }
    copies
}

/// A copy of an operation.
fn copy_operation(operation: &WorkspaceOperation) -> (result: WorkspaceOperation)
    ensures
        result@ == operation@,
{
    WorkspaceOperation {
        id: operation.id.clone(),
        kind: operation.kind.clone(),
        status: operation.status.clone(),
        title: operation.title.clone(),
        summary: copy_opt(&operation.summary),
        detail: copy_opt(&operation.detail),
        paths: copy_texts(&operation.paths),
    }
}

/// Bounds every field of an operation; `hash` is that of its full id.
pub fn bounded_operation(operation: WorkspaceOperation, hash: u64) -> (result: WorkspaceOperation)
    ensures
        result@ == bounded_operation_view(operation@, hash),
{
    let ghost original = operation@;
    let ghost source = texts(operation.paths@);
    let count = if operation.paths.len() <= MAX_OPERATION_PATHS {
        operation.paths.len()
    } else {
        MAX_OPERATION_PATHS
    };
    let mut kept: Vec<String> = Vec::new();
    let mut i: usize = 0;
    while i < count
        invariant
            source == texts(operation.paths@),
            count <= operation.paths@.len(),
            i <= count,
            texts(kept@) == source.take(i as int).map_values(
                |path: Seq<char>| bounded_chars(path, MAX_OPERATION_PATH_BYTES as int),
            ),
        decreases count - i,
    {
        let copy = operation.paths[i].clone();
        proof {
            assert(copy@ == source[i as int]);
        }
        let path = bounded_to(copy, MAX_OPERATION_PATH_BYTES);
        let ghost before = kept@;
        kept.push(path);
        proof {
            let f = |p: Seq<char>| bounded_chars(p, MAX_OPERATION_PATH_BYTES as int);
            assert(kept@ == before.push(path));
            assert(texts(kept@) =~= texts(before).push(path@));
            assert(source.take(i + 1) =~= source.take(i as int).push(source[i as int]));
            assert(source.take(i + 1).map_values(f) =~= source.take(i as int).map_values(f).push(
                f(source[i as int]),
            ));
        }
        i = i + 1;
    }
    let WorkspaceOperation { id, kind, status, title, summary, detail, paths: _ } = operation;
    let result = WorkspaceOperation {
        id: bounded_identifier_with_hash(id, hash),
        kind: bounded_to(kind, MAX_IDENTIFIER_BYTES),
        status: bounded_to(status, MAX_IDENTIFIER_BYTES),
        title: bounded_to(title, MAX_OPERATION_TEXT_BYTES),
        summary: bound_opt(summary, MAX_OPERATION_TEXT_BYTES),
        detail: bound_opt(detail, MAX_OPERATION_TEXT_BYTES),
        paths: kept,
    };
    proof {
        if source.len() <= MAX_OPERATION_PATHS {
            assert(source.take(count as int) =~= source);
        }
        assert(result@.paths =~= bounded_operation_view(original, hash).paths);
    }
    result
}

/// The hash of an event's identifier with the standard library's default
/// hasher (0 for an event without one).
pub open spec fn event_hash(event: EventView) -> u64 {
    match event {
        EventView::MessageStarted { id, .. } => std_default_hash(id),
        EventView::TextDelta { id, .. } => std_default_hash(id),
        EventView::MessageCompleted { id, .. } => std_default_hash(id),
        EventView::OperationStarted(operation) => std_default_hash(operation.id),
        EventView::OperationCompleted(operation) => std_default_hash(operation.id),
        EventView::Warning { code, .. } => match code {
            Some(c) => std_default_hash(c),
            None => 0,
        },
        EventView::TurnStatus { .. } => 0,
    }
}

/// The identifier of an event that `bounded_identifier` hashes, if any.
pub fn event_identifier(event: &ProgressEvent) -> (id: Option<&String>)
    ensures
        match event@ {
            EventView::MessageStarted { id: i, .. } => id.is_some() && id.unwrap()@ == i,
            EventView::TextDelta { id: i, .. } => id.is_some() && id.unwrap()@ == i,
            EventView::MessageCompleted { id: i, .. } => id.is_some() && id.unwrap()@ == i,
            EventView::OperationStarted(operation) => id.is_some() && id.unwrap()@ == operation.id,
            EventView::OperationCompleted(operation) => id.is_some() && id.unwrap()@
                == operation.id,
            EventView::Warning { code, .. } => opt_view(match id {
                Some(c) => Some(*c),
                None => None,
            }) == code,
            EventView::TurnStatus { .. } => id.is_none(),
        },
{
    match event {
        ProgressEvent::MessageStarted { id, .. } => Some(id),
        ProgressEvent::TextDelta { id, .. } => Some(id),
        ProgressEvent::MessageCompleted { id, .. } => Some(id),
        ProgressEvent::OperationStarted(operation) => Some(&operation.id),
        ProgressEvent::OperationCompleted(operation) => Some(&operation.id),
        ProgressEvent::Warning { code, .. } => match code {
            Some(c) => Some(c),
            None => None,
        },
        ProgressEvent::TurnStatus { .. } => None,
    }
}

impl ProgressProjection {
    fn apply_message(
        &mut self,
        id: String,
        phase: Option<String>,
        text: String,
        completed: bool,
        hash: u64,
    ) -> (published: (String, Option<String>, String))
        requires
            old(self).wf(),
        ensures
            final(self).wf(),
            (final(self)@, published.0@, opt_view(published.1), published.2@) == message_spec(
                old(self)@,
                id@,
                opt_view(phase),
                text@,
                completed,
                hash,
            ),
    {
        let id = bounded_identifier_with_hash(id, hash);
        let phase = bound_opt(phase, MAX_IDENTIFIER_BYTES);
        let text = bounded(text);
        let published = (id.clone(), copy_opt(&phase), text.clone());
        self.insert_item(id, ProjectedItem::Message { phase, text, completed });
        published
    }

    fn apply_delta(&mut self, id: String, delta: String, hash: u64) -> (published: (String, String))
        requires
            old(self).wf(),
        ensures
            final(self).wf(),
            (final(self)@, published.0@, published.1@) == delta_spec(old(self)@, id@, delta@, hash),
    {
        let ghost s = self@;
        let id = bounded_identifier_with_hash(id, hash);
        let index = match self.find(id.as_str()) {
            Some(i) => i,
            None => self.insert_item(
                id.clone(),
                ProjectedItem::Message { phase: None, text: String::new(), completed: false },
            ),
        };
        let ghost s1 = self@;
        let ghost r = delta_spec(s, id@, delta@, hash);
        proof {
            assert(s1.order.contains(id@));
            assert(index == s1.order.index_of(id@));
        }
        let item = self.items.remove(index);
        match item {
            ProjectedItem::Message { phase, text, completed } => {
                let used = text.as_str().as_bytes().len();
                let room = if used >= MAX_LIVE_MESSAGE_BYTES {
                    0
                } else {
                    MAX_LIVE_MESSAGE_BYTES - used
                };
                let accepted = bounded_to(delta, room);
                let mut text = text;
                push_str(&mut text, accepted.as_str());
                self.items.insert(index, ProjectedItem::Message { phase, text, completed });
                proof {
                    assert(self@.items =~= r.0.items);
                }
                (id, accepted)
            },
            ProjectedItem::Operation(operation) => {
                self.items.insert(index, ProjectedItem::Operation(operation));
                proof {
                    assert(self@.items =~= s1.items);
                }
                (id, String::new())
            },
        }
    }

    fn apply_operation(&mut self, operation: WorkspaceOperation, hash: u64) -> (published:
        WorkspaceOperation)
        requires
            old(self).wf(),
        ensures
            final(self).wf(),
            published@ == bounded_operation_view(operation@, hash),
            final(self)@ == upsert(old(self)@, published@.id, ItemView::Operation(published@)),
    {
        let operation = bounded_operation(operation, hash);
        let published = copy_operation(&operation);
        let id = operation.id.clone();
        self.insert_item(id, ProjectedItem::Operation(operation));
        published
    }

    fn apply_warning(
        &mut self,
        message: String,
        retrying: bool,
        code: Option<String>,
        hash: u64,
    ) -> (published: ProgressWarning)
        requires
            old(self).wf(),
        ensures
            final(self).wf(),
            published@ == warning_view(message@, retrying, opt_view(code), hash),
            final(self)@ == warning_spec(old(self)@, published@),
    {
        let code = match code {
            Some(c) => Some(bounded_identifier_with_hash(c, hash)),
            None => None,
        };
        let message = bounded_to(message, MAX_WARNING_BYTES);
        let published = ProgressWarning { message: message.clone(), retrying, code: copy_opt(&code) };
        let ghost w = published@;
        if self.warnings.len() >= MAX_WARNINGS {
            let _evicted = self.warnings.remove(0);
            self.dropped_warnings = self.dropped_warnings.saturating_add(1);
        }
        self.warnings.push(ProgressWarning { message, retrying, code });
        proof {
            assert(self@.warnings =~= warning_spec(old(self)@, w).warnings);
        }
        published
    }

    /// Applies one event, given the hash of its identifier, and returns the
    /// envelope to publish.
    pub fn apply_with_hash(&mut self, event: ProgressEvent, hash: u64) -> (envelope: ProgressEnvelope)
        requires
            old(self).wf(),
        ensures
            final(self).wf(),
            (final(self)@, envelope@) == apply_spec(old(self)@, event@, hash),
    {
        let seq = self.seq;
        match event {
            ProgressEvent::MessageStarted { id, phase, text } => {
                let (id, phase, text) = self.apply_message(id, phase, text, false, hash);
                ProgressEnvelope {
                    seq,
                    item_id: Some(id),
                    body: EnvelopeBody::MessageStarted { phase, text },
                }
            },
            ProgressEvent::MessageCompleted { id, phase, text } => {
                let (id, phase, text) = self.apply_message(id, phase, text, true, hash);
                ProgressEnvelope {
                    seq,
                    item_id: Some(id),
                    body: EnvelopeBody::MessageCompleted { phase, text },
                }
            },
            ProgressEvent::TextDelta { id, delta } => {
                let (id, delta) = self.apply_delta(id, delta, hash);
                ProgressEnvelope { seq, item_id: Some(id), body: EnvelopeBody::TextDelta { delta } }
            },
            ProgressEvent::OperationStarted(operation) => {
                let operation = self.apply_operation(operation, hash);
                let id = operation.id.clone();
                ProgressEnvelope {
                    seq,
                    item_id: Some(id),
                    body: EnvelopeBody::OperationStarted(operation),
                }
            },
            ProgressEvent::OperationCompleted(operation) => {
                let operation = self.apply_operation(operation, hash);
                let id = operation.id.clone();
                ProgressEnvelope {
                    seq,
                    item_id: Some(id),
                    body: EnvelopeBody::OperationCompleted(operation),
                }
            },
            ProgressEvent::Warning { message, retrying, code } => {
                let warning = self.apply_warning(message, retrying, code, hash);
                ProgressEnvelope { seq, item_id: None, body: EnvelopeBody::Warning(warning) }
            },
            ProgressEvent::TurnStatus { status, error } => {
                let status = bounded_to(status, MAX_IDENTIFIER_BYTES);
                self.status = status.clone();
                ProgressEnvelope {
                    seq,
                    item_id: None,
                    body: EnvelopeBody::TurnStatus {
                        status,
                        error: bound_opt(error, MAX_WARNING_BYTES),
                    },
                }
            },
        }
    }

    /// Applies one event, hashing its identifier with the standard library's
    /// default hasher, and returns the envelope to publish.
    pub fn apply(&mut self, event: ProgressEvent) -> (envelope: ProgressEnvelope)
        requires
            old(self).wf(),
        ensures
            final(self).wf(),
            (final(self)@, envelope@) == apply_spec(old(self)@, event@, event_hash(event@)),
    {
        let hash = match event_identifier(&event) {
            Some(id) => default_hash(id.as_str()),
            None => 0,
        };
        self.apply_with_hash(event, hash)
    }
}


/// The content of a `ProgressIdentity`.
pub struct IdentityView {
    pub run: Seq<char>,
    pub project: Seq<char>,
    pub session: Option<Seq<char>>,
}

impl View for ProgressIdentity {
    type V = IdentityView;

    open spec fn view(&self) -> IdentityView {
        IdentityView { run: self.run@, project: self.project@, session: opt_view(self.session) }
    }
}

/// The JSON object of an operation (keys in sorted order).
pub open spec fn operation_json(op: OperationView) -> Seq<u8> {
    utf8("{\"detail\":"@) + json_opt_string(op.detail) + utf8(",\"id\":"@) + json_string(op.id)
        + utf8(",\"kind\":"@) + json_string(op.kind) + utf8(",\"paths\":"@) + json_string_array(
        op.paths,
    ) + utf8(",\"status\":"@) + json_string(op.status) + utf8(",\"summary\":"@)
        + json_opt_string(op.summary) + utf8(",\"title\":"@) + json_string(op.title) + utf8(
        "}"@,
    )
}

/// The JSON object of one checkpoint item.
pub open spec fn item_json(id: Seq<char>, item: ItemView) -> Seq<u8> {
    match item {
        ItemView::Message { phase, text, completed } => utf8("{\"completed\":"@) + json_bool(
            completed,
        ) + utf8(",\"id\":"@) + json_string(id) + utf8(",\"phase\":"@) + json_opt_string(phase)
            + utf8(",\"text\":"@) + json_string(text) + utf8(",\"type\":\"message\"}"@),
        ItemView::Operation(op) => utf8("{\"operation\":"@) + operation_json(op) + utf8(
            ",\"type\":\"operation\"}"@,
        ),
    }
}

/// The JSON object of one warning.
pub open spec fn warning_json(w: WarningView) -> Seq<u8> {
    utf8("{\"code\":"@) + json_opt_string(w.code) + utf8(",\"message\":"@) + json_string(
        w.message,
    ) + utf8(",\"retrying\":"@) + json_bool(w.retrying) + utf8("}"@)
}

/// The encoded items of a checkpoint, oldest first.
pub open spec fn items_json(s: ProgressState) -> Seq<Seq<u8>> {
    Seq::new(s.order.len(), |i: int| item_json(s.order[i], s.items[i]))
}

/// The JSON text of a progress checkpoint taken at `updated_at` (keys in sorted order).
#[verifier::opaque]
pub open spec fn checkpoint_json(s: ProgressState, identity: IdentityView, updated_at: int) -> Seq<
    u8,
> {
    utf8("{\"dropped_items\":"@) + json_int(s.dropped_items as int) + utf8(
        ",\"dropped_warnings\":"@,
    ) + json_int(s.dropped_warnings as int) + utf8(",\"items\":"@) + json_array(items_json(s))
        + utf8(",\"project_id\":"@) + json_string(identity.project) + utf8(",\"run_id\":"@)
        + json_string(identity.run) + utf8(",\"seq\":"@) + json_int(s.seq as int) + utf8(
        ",\"session_id\":"@,
    ) + json_opt_string(identity.session) + utf8(",\"status\":"@) + json_string(s.status) + utf8(
        ",\"truncated\":"@,
    ) + json_bool(s.dropped_items > 0 || s.dropped_warnings > 0) + utf8(",\"updated_at\":"@)
        + json_int(updated_at) + utf8(",\"version\":1,\"warnings\":"@) + json_array(
        s.warnings.map_values(|w: WarningView| warning_json(w)),
    ) + utf8("}"@)
}

/// Whether the checkpoint of `s` fits the checkpoint budget.
pub open spec fn fits_budget(s: ProgressState, identity: IdentityView, updated_at: int) -> bool {
    checkpoint_json(s, identity, updated_at).len() <= MAX_PROGRESS_CHECKPOINT_BYTES
}

/// Drops the oldest item, or else the oldest warning.
pub open spec fn evict_one(s: ProgressState) -> ProgressState {
    if s.order.len() > 0 {
        ProgressState {
            order: s.order.drop_first(),
            items: s.items.drop_first(),
            dropped_items: saturating_inc(s.dropped_items),
            ..s
        }
    } else if s.warnings.len() > 0 {
        ProgressState {
            warnings: s.warnings.drop_first(),
            dropped_warnings: saturating_inc(s.dropped_warnings),
            ..s
        }
    } else {
        s
    }
}

/// `s` after `k` evictions.
pub open spec fn evicted(s: ProgressState, k: nat) -> ProgressState
    decreases k,
{
    if k == 0 {
        s
    } else {
        evict_one(evicted(s, (k - 1) as nat))
    }
}

/// Nothing is left to evict.
pub open spec fn exhausted(s: ProgressState) -> bool {
    s.order.len() == 0 && s.warnings.len() == 0
}

/// `r` is what enforcing the budget on `s` leaves after `k` evictions: the
/// first `k` evictions all left the checkpoint too large, and then either it
/// fits, or nothing is left and the status is cut to `MAX_FALLBACK_STATUS_BYTES`.
pub open spec fn budget_outcome(
    s: ProgressState,
    identity: IdentityView,
    updated_at: int,
    k: nat,
    r: ProgressState,
) -> bool {
    &&& forall|j: nat| j < k ==> !fits_budget(#[trigger] evicted(s, j), identity, updated_at)
    &&& if fits_budget(evicted(s, k), identity, updated_at) {
        r == evicted(s, k)
    } else {
        &&& exhausted(evicted(s, k))
        &&& r == ProgressState {
            status: bounded_chars(evicted(s, k).status, MAX_FALLBACK_STATUS_BYTES as int),
            ..evicted(s, k)
        }
    }
}

proof fn lemma_evict_one_wf(s: ProgressState)
    requires
        state_wf(s),
    ensures
        state_wf(evict_one(s)),
{
    let r = evict_one(s);
    if s.order.len() > 0 {
        assert forall|i: int, j: int|
            0 <= i < r.order.len() && 0 <= j < r.order.len() && i != j implies r.order[i]
            != r.order[j] by {
            assert(r.order[i] == s.order[i + 1]);
            assert(r.order[j] == s.order[j + 1]);
        }
    }
}

/// Appends a JSON integer for a count.
fn push_count(out: &mut Vec<u8>, n: usize)
    ensures
        final(out)@ == old(out)@ + json_int(n as int),
{
    reveal(json_int);
    push_decimal(out, n as u64);
}

#[verifier::rlimit(60)]
fn push_count_u64(out: &mut Vec<u8>, n: u64)
    ensures
        final(out)@ == old(out)@ + json_int(n as int),
{
    reveal(json_int);
    push_decimal(out, n);
}

fn push_operation_json(out: &mut Vec<u8>, op: &WorkspaceOperation)
    ensures
        final(out)@ == old(out)@ + operation_json(op@),
{
    let mut piece: Vec<u8> = Vec::new();
    push_text(&mut piece, "{\"detail\":");
    proof {
        assert(piece@ =~= utf8("{\"detail\":"@));
    }
    push_json_opt_string(&mut piece, &op.detail);
    push_text(&mut piece, ",\"id\":");
    push_json_string(&mut piece, op.id.as_str());
    push_text(&mut piece, ",\"kind\":");
    push_json_string(&mut piece, op.kind.as_str());
    push_text(&mut piece, ",\"paths\":");
    push_json_string_array(&mut piece, &op.paths);
    push_text(&mut piece, ",\"status\":");
    push_json_string(&mut piece, op.status.as_str());
    push_text(&mut piece, ",\"summary\":");
    push_json_opt_string(&mut piece, &op.summary);
    push_text(&mut piece, ",\"title\":");
    push_json_string(&mut piece, op.title.as_str());
    push_text(&mut piece, "}");
    out.append(&mut piece);
}

fn push_item_json(out: &mut Vec<u8>, id: &String, item: &ProjectedItem)
    ensures
        final(out)@ == old(out)@ + item_json(id@, item@),
{
    let mut piece: Vec<u8> = Vec::new();
    match item {
        ProjectedItem::Message { phase, text, completed } => {
            push_text(&mut piece, "{\"completed\":");
            proof {
                assert(piece@ =~= utf8("{\"completed\":"@));
            }
            push_json_bool(&mut piece, *completed);
            push_text(&mut piece, ",\"id\":");
            push_json_string(&mut piece, id.as_str());
            push_text(&mut piece, ",\"phase\":");
            push_json_opt_string(&mut piece, phase);
            push_text(&mut piece, ",\"text\":");
            push_json_string(&mut piece, text.as_str());
            push_text(&mut piece, ",\"type\":\"message\"}");
        },
        ProjectedItem::Operation(op) => {
            push_text(&mut piece, "{\"operation\":");
            proof {
                assert(piece@ =~= utf8("{\"operation\":"@));
            }
            push_operation_json(&mut piece, op);
            push_text(&mut piece, ",\"type\":\"operation\"}");
        },
    }
    out.append(&mut piece);
}

fn push_warning_json(out: &mut Vec<u8>, w: &ProgressWarning)
    ensures
        final(out)@ == old(out)@ + warning_json(w@),
{
    let mut piece: Vec<u8> = Vec::new();
    push_text(&mut piece, "{\"code\":");
    proof {
        assert(piece@ =~= utf8("{\"code\":"@));
    }
    push_json_opt_string(&mut piece, &w.code);
    push_text(&mut piece, ",\"message\":");
    push_json_string(&mut piece, w.message.as_str());
    push_text(&mut piece, ",\"retrying\":");
    push_json_bool(&mut piece, w.retrying);
    push_text(&mut piece, "}");
    out.append(&mut piece);
}

impl ProgressProjection {
    fn push_items_json(&self, out: &mut Vec<u8>)
        requires
            self.wf(),
        ensures
            final(out)@ == old(out)@ + json_array(items_json(self@)),
    {
        let ghost start = out@;
        let ghost encoded = items_json(self@);
        out.push(91);
        let mut i: usize = 0;
        while i < self.order.len()
            invariant
                self.wf(),
                i <= self.order@.len(),
                encoded == items_json(self@),
                out@ == start + seq![91u8] + json_list(encoded.take(i as int)),
            decreases self.order.len() - i,
        {
            if i > 0 {
                out.push(44);
            }
            push_item_json(out, &self.order[i], &self.items[i]);
            proof {
                let t = encoded.take(i + 1);
                assert(t.drop_last() =~= encoded.take(i as int));
                assert(self@.order[i as int] == self.order@[i as int]@);
                assert(self@.items[i as int] == self.items@[i as int]@);
                assert(t.last() == item_json(self.order@[i as int]@, self.items@[i as int]@));
                if i == 0 {
                    assert(json_list(encoded.take(0)) =~= Seq::<u8>::empty());
                    assert(json_list(t) == t[0]);
                }
                assert(out@ =~= start + seq![91u8] + json_list(t));
            }
            i = i + 1;
        }
        out.push(93);
        proof {
            reveal(json_array);
            assert(encoded.take(i as int) =~= encoded);
            assert(out@ =~= start + json_array(items_json(self@)));
        }
    }

    fn push_warnings_json(&self, out: &mut Vec<u8>)
        requires
            self.wf(),
        ensures
            final(out)@ == old(out)@ + json_array(
                self@.warnings.map_values(|w: WarningView| warning_json(w)),
            ),
    {
        let ghost start = out@;
        let ghost encoded = self@.warnings.map_values(|w: WarningView| warning_json(w));
        out.push(91);
        let mut i: usize = 0;
        while i < self.warnings.len()
            invariant
                self.wf(),
                i <= self.warnings@.len(),
                encoded == self@.warnings.map_values(|w: WarningView| warning_json(w)),
                out@ == start + seq![91u8] + json_list(encoded.take(i as int)),
            decreases self.warnings.len() - i,
        {
            if i > 0 {
                out.push(44);
            }
            push_warning_json(out, &self.warnings[i]);
            proof {
                let t = encoded.take(i + 1);
                assert(t.drop_last() =~= encoded.take(i as int));
                assert(t.last() == warning_json(self.warnings@[i as int]@));
                if i == 0 {
                    assert(json_list(encoded.take(0)) =~= Seq::<u8>::empty());
                    assert(json_list(t) == t[0]);
                }
                assert(out@ =~= start + seq![91u8] + json_list(t));
            }
            i = i + 1;
        }
        out.push(93);
        proof {
            reveal(json_array);
            assert(encoded.take(i as int) =~= encoded);
            assert(out@ =~= start + json_array(encoded));
        }
    }

    /// Drops the oldest item, or else the oldest warning.
    fn evict_oldest(&mut self)
        requires
            old(self).wf(),
            old(self)@.order.len() > 0 || old(self)@.warnings.len() > 0,
        ensures
            final(self).wf(),
            final(self)@ == evict_one(old(self)@),
            final(self).order@.len() + final(self).warnings@.len() < old(self).order@.len()
                + old(self).warnings@.len(),
    {
        proof {
            lemma_evict_one_wf(self@);
        }
        if self.order.len() > 0 {
            let _evicted_id = self.order.remove(0);
            let _evicted_item = self.items.remove(0);
            self.dropped_items = self.dropped_items.saturating_add(1);
            proof {
                assert(self@.order =~= evict_one(old(self)@).order);
                assert(self@.items =~= evict_one(old(self)@).items);
            }
        } else {
            let _evicted = self.warnings.remove(0);
            self.dropped_warnings = self.dropped_warnings.saturating_add(1);
            proof {
                assert(self@.warnings =~= evict_one(old(self)@).warnings);
            }
        }
    }

    /// The JSON text of the checkpoint, stamped with `updated_at`.
    pub fn encode_checkpoint(&self, identity: &ProgressIdentity, updated_at: i64) -> (bytes: Vec<u8>)
        requires
            self.wf(),
        ensures
            bytes@ == checkpoint_json(self@, identity@, updated_at as int),
    {
        let mut out: Vec<u8> = Vec::new();
        push_text(&mut out, "{\"dropped_items\":");
        proof {
            assert(out@ =~= utf8("{\"dropped_items\":"@));
        }
        push_count(&mut out, self.dropped_items);
        push_text(&mut out, ",\"dropped_warnings\":");
        push_count(&mut out, self.dropped_warnings);
        push_text(&mut out, ",\"items\":");
        self.push_items_json(&mut out);
        push_text(&mut out, ",\"project_id\":");
        push_json_string(&mut out, identity.project.as_str());
        push_text(&mut out, ",\"run_id\":");
        push_json_string(&mut out, identity.run.as_str());
        push_text(&mut out, ",\"seq\":");
        push_count_u64(&mut out, self.seq);
        push_text(&mut out, ",\"session_id\":");
        push_json_opt_string(&mut out, &identity.session);
        push_text(&mut out, ",\"status\":");
        push_json_string(&mut out, self.status.as_str());
        push_text(&mut out, ",\"truncated\":");
        push_json_bool(&mut out, self.dropped_items > 0 || self.dropped_warnings > 0);
        push_text(&mut out, ",\"updated_at\":");
        push_json_i64(&mut out, updated_at);
        push_text(&mut out, ",\"version\":1,\"warnings\":");
        self.push_warnings_json(&mut out);
        push_text(&mut out, "}");
        proof {
            reveal(checkpoint_json);
        }
        out
    }

    /// Evicts the oldest items, then the oldest warnings, until the checkpoint
    /// stamped with `updated_at` fits `MAX_PROGRESS_CHECKPOINT_BYTES`; when
    /// nothing is left to evict, cuts the status to `MAX_FALLBACK_STATUS_BYTES`.
    pub fn enforce_budget_at(&mut self, identity: &ProgressIdentity, updated_at: i64)
        requires
            old(self).wf(),
        ensures
            final(self).wf(),
            exists|k: nat| budget_outcome(old(self)@, identity@, updated_at as int, k, final(self)@),
    {
        let ghost s = self@;
        let ghost mut k: nat = 0;
        loop
            invariant_except_break
                self.wf(),
                self@ == evicted(s, k),
                forall|j: nat| j < k ==> !fits_budget(#[trigger] evicted(s, j), identity@, updated_at as int),
            ensures
                self.wf(),
                budget_outcome(s, identity@, updated_at as int, k, self@),
            decreases self.order@.len() + self.warnings@.len(),
        {
            let bytes = self.encode_checkpoint(identity, updated_at);
            if bytes.len() <= MAX_PROGRESS_CHECKPOINT_BYTES {
                break;
            }
            if self.order.len() == 0 && self.warnings.len() == 0 {
                let status = self.status.clone();
                self.status = bounded_to(status, MAX_FALLBACK_STATUS_BYTES);
                break;
            }
            self.evict_oldest();
            proof {
                k = k + 1;
            }
        }
    }
}

impl Default for ProgressProjection {
    /// An empty projection with an empty status.
    fn default() -> (projection: Self)
        ensures
            projection.wf(),
            projection@ == initial_state(Seq::empty()),
    {
        ProgressProjection::with_status(String::new())
    }
}

impl ProgressProjection {
    /// The item stored under `id`, if any.
    pub fn item(&self, id: &str) -> (item: Option<&ProjectedItem>)
        requires
            self.wf(),
        ensures
            match item {
                Some(it) => self@.order.contains(id@) && it@ == self@.items[self@.order.index_of(
                    id@,
                )],
                None => !self@.order.contains(id@),
            },
    {
        match self.find(id) {
            Some(i) => Some(&self.items[i]),
            None => None,
        }
    }

    /// Moves to the next event sequence number (saturating).
    pub fn advance_seq(&mut self)
        requires
            old(self).wf(),
        ensures
            final(self).wf(),
            final(self)@ == (ProgressState {
                seq: if old(self)@.seq == u64::MAX {
                    old(self)@.seq
                } else {
                    (old(self)@.seq + 1) as u64
                },
                ..old(self)@
            }),
    {
        self.seq = self.seq.saturating_add(1);
    }

    /// The JSON text of the checkpoint, stamped with the current time.
    pub fn checkpoint(&self, identity: &ProgressIdentity) -> (bytes: Vec<u8>)
        requires
            self.wf(),
        ensures
            exists|t: i64| t >= 0 && bytes@ == checkpoint_json(self@, identity@, t as int),
    {
        let updated_at = now();
        self.encode_checkpoint(identity, updated_at)
    }

    /// Keeps the checkpoint within `MAX_PROGRESS_CHECKPOINT_BYTES` when
    /// stamped with the current time (see `enforce_budget_at`).
    pub fn enforce_budget(&mut self, identity: &ProgressIdentity)
        requires
            old(self).wf(),
        ensures
            final(self).wf(),
            exists|t: i64, k: nat|
                t >= 0 && budget_outcome(old(self)@, identity@, t as int, k, final(self)@),
    {
        let updated_at = now();
        self.enforce_budget_at(identity, updated_at);
    }
}

} // verus!
