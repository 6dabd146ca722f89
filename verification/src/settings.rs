//! The settings document: typed lookups, schema validation and revisioned saves.
use vstd::prelude::*;
use crate::errors::{control_error, is_error, ControlError, ErrorCode, Outcome};
use crate::text::{push_str, str_equals, text_list_contains, texts};

verus! {

/// A setting value as the document stores it; `Other` stands for `null`,
/// arrays, objects and numbers that are not 64-bit signed integers.
#[derive(Debug)]
pub enum SettingValue {
    Text(String),
    Boolean(bool),
    Integer(i64),
    Other,
}

/// The settings document, one entry per key.
#[derive(Debug)]
pub struct SettingsDocument {
    pub entries: Vec<(String, SettingValue)>,
}

/// The value stored under `key`: that of the first entry with this key.
pub open spec fn lookup(entries: Seq<(String, SettingValue)>, key: Seq<char>) -> Option<SettingValue>
    decreases entries.len(),
{
    if entries.len() == 0 {
        None
    } else if entries[0].0@ == key {
        Some(entries[0].1)
    } else {
        lookup(entries.drop_first(), key)
    }
}

/// The text stored under `key`, if that value is a string (`Value::as_str`).
pub open spec fn setting_text(doc: SettingsDocument, key: Seq<char>) -> Option<Seq<char>> {
    match lookup(doc.entries@, key) {
        Some(SettingValue::Text(text)) => Some(text@),
        _ => None,
    }
}

impl SettingsDocument {
    /// The value stored under `key`.
    pub fn get(&self, key: &str) -> (value: Option<&SettingValue>)
        ensures
            match value {
                Some(v) => lookup(self.entries@, key@) == Some(*v),
                None => lookup(self.entries@, key@).is_none(),
            },
    {
        let mut i: usize = 0;
        proof {
            assert(self.entries@.subrange(0, self.entries@.len() as int) =~= self.entries@);
        }
        while i < self.entries.len()
            invariant
                i <= self.entries@.len(),
                lookup(self.entries@, key@) == lookup(self.entries@.subrange(i as int, self.entries@.len() as int), key@),
            decreases self.entries.len() - i,
        {
            let ghost rest = self.entries@.subrange(i as int, self.entries@.len() as int);
            proof {
                assert(rest.drop_first() =~= self.entries@.subrange(i + 1, self.entries@.len() as int));
                assert(rest[0] == self.entries@[i as int]);
            }
            if str_equals(self.entries[i].0.as_str(), key) {
                return Some(&self.entries[i].1);
            }
            i = i + 1;
        }
        None
    }

    /// The text stored under `key`, if that value is a string.
    pub fn get_text(&self, key: &str) -> (text: Option<&String>)
        ensures
            match text {
                Some(t) => setting_text(*self, key@) == Some(t@),
                None => setting_text(*self, key@).is_none(),
            },
    {
        match self.get(key) {
            Some(SettingValue::Text(text)) => Some(text),
            _ => None,
        }
    }
}

/// The revision of the settings of a fresh installation.
pub const DEFAULT_SETTINGS_REVISION: u64 = 1;

/// The revision of the settings of a fresh installation.
pub fn default_settings_revision() -> (revision: u64)
    ensures
        revision == DEFAULT_SETTINGS_REVISION,
{
    DEFAULT_SETTINGS_REVISION
}

/// The type of value a setting takes.
#[derive(Debug)]
pub enum SettingKind {
    Text,
    Path,
    CredentialReference,
    Boolean,
    Number { min: i64, max: i64 },
    Select { options: Vec<String> },
}

/// A setting the schema defines.
#[derive(Debug)]
pub struct SettingDefinition {
    pub id: String,
    pub kind: SettingKind,
}

/// A value suits the kind of its setting.
pub open spec fn value_fits(kind: SettingKind, value: SettingValue) -> bool {
    match kind {
        SettingKind::Text | SettingKind::Path | SettingKind::CredentialReference => value is Text,
        SettingKind::Boolean => value is Boolean,
        SettingKind::Number { min, max } => match value {
            SettingValue::Integer(n) => min <= n <= max,
            _ => false,
        },
        SettingKind::Select { options } => match value {
            SettingValue::Text(choice) => texts(options@).contains(choice@),
            _ => false,
        },
    }
}

/// The ids the schema defines.
pub open spec fn definition_ids(schema: Seq<SettingDefinition>) -> Seq<Seq<char>> {
    schema.map_values(|d: SettingDefinition| d.id@)
}

/// The error of an invalid settings document.
pub open spec fn settings_error(message: Seq<char>) -> (ErrorCode, Seq<char>, bool) {
    (ErrorCode::InvalidConfiguration, message, false)
}

/// The first definition, in schema order, that the document misses or
/// gives a value of the wrong kind.
pub open spec fn definitions_check(schema: Seq<SettingDefinition>, values: SettingsDocument) -> Outcome<
    (),
>
    decreases schema.len(),
{
    if schema.len() == 0 {
        Ok(())
    } else {
        match lookup(values.entries@, schema[0].id@) {
            None => Err(settings_error("missing setting "@ + schema[0].id@)),
            Some(v) => if value_fits(schema[0].kind, v) {
                definitions_check(schema.drop_first(), values)
            } else {
                Err(settings_error("invalid value for setting "@ + schema[0].id@))
            },
        }
    }
}

/// The outcome of validating a settings document against the schema: every
/// key must be defined, then every definition must have a value of its kind.
pub open spec fn settings_check(values: SettingsDocument, schema: Seq<SettingDefinition>) -> Outcome<
    (),
> {
    if exists|i: int|
        0 <= i < values.entries@.len() && !definition_ids(schema).contains(
            (#[trigger] values.entries@[i]).0@,
        ) {
        Err(settings_error("settings contain an unknown key"@))
    } else {
        definitions_check(schema, values)
    }
}

fn defines(schema: &Vec<SettingDefinition>, key: &str) -> (found: bool)
    ensures
        found == definition_ids(schema@).contains(key@),
{
    let mut i: usize = 0;
    while i < schema.len()
        invariant
            i <= schema@.len(),
            forall|j: int| 0 <= j < i ==> definition_ids(schema@)[j] != key@,
        decreases schema.len() - i,
    {
        if str_equals(schema[i].id.as_str(), key) {
            proof {
                assert(definition_ids(schema@)[i as int] == key@);
            }
            return true;
        }
        i = i + 1;
    }
    false
}

fn value_fits_kind(kind: &SettingKind, value: &SettingValue) -> (fits: bool)
    ensures
        fits == value_fits(*kind, *value),
{
    match kind {
        SettingKind::Text | SettingKind::Path | SettingKind::CredentialReference => match value {
            SettingValue::Text(_) => true,
            _ => false,
        },
        SettingKind::Boolean => match value {
            SettingValue::Boolean(_) => true,
            _ => false,
        },
        SettingKind::Number { min, max } => match value {
            SettingValue::Integer(n) => *min <= *n && *n <= *max,
            _ => false,
        },
        SettingKind::Select { options } => match value {
            SettingValue::Text(choice) => text_list_contains(options, choice.as_str()),
            _ => false,
        },
    }
}

/// Validates a settings document against the schema (see `settings_check`).
pub fn validate_settings(values: &SettingsDocument, schema: &Vec<SettingDefinition>) -> (result:
    Result<(), ControlError>)
    ensures
        match (result, settings_check(*values, schema@)) {
            (Ok(()), Ok(())) => true,
            (Err(e), Err(spec)) => is_error(e, spec.0, spec.1, spec.2),
            _ => false,
        },
{
    let mut i: usize = 0;
    while i < values.entries.len()
        invariant
            i <= values.entries@.len(),
            forall|j: int|
                0 <= j < i ==> definition_ids(schema@).contains((#[trigger] values.entries@[j]).0@),
        decreases values.entries.len() - i,
    {
        if !defines(schema, values.entries[i].0.as_str()) {
            return Err(
                control_error(ErrorCode::InvalidConfiguration, "settings contain an unknown key", false),
            );
        }
        i = i + 1;
    }
    let mut d: usize = 0;
    proof {
        assert(schema@.subrange(0, schema@.len() as int) =~= schema@);
    }
    while d < schema.len()
        invariant
            d <= schema@.len(),
            forall|j: int|
                0 <= j < values.entries@.len() ==> definition_ids(schema@).contains(
                    (#[trigger] values.entries@[j]).0@,
                ),
            definitions_check(schema@, *values) == definitions_check(
                schema@.subrange(d as int, schema@.len() as int),
                *values,
            ),
        decreases schema.len() - d,
    {
        let ghost rest = schema@.subrange(d as int, schema@.len() as int);
        proof {
            assert(rest.drop_first() =~= schema@.subrange(d + 1, schema@.len() as int));
            assert(rest[0] == schema@[d as int]);
        }
        let definition = &schema[d];
        match values.get(definition.id.as_str()) {
            None => {
                let mut message = String::from_str("missing setting ");
                push_str(&mut message, definition.id.as_str());
                return Err(ControlError { code: ErrorCode::InvalidConfiguration, message, retryable: false });
            },
            Some(value) => {
                if !value_fits_kind(&definition.kind, value) {
                    let mut message = String::from_str("invalid value for setting ");
                    push_str(&mut message, definition.id.as_str());
                    return Err(ControlError { code: ErrorCode::InvalidConfiguration, message, retryable: false });
                }
            },
        }
        d = d + 1;
    }
    Ok(())
}

/// The settings document with its revision, the unit of optimistic concurrency.
#[derive(Debug)]
pub struct SettingsState {
    pub document: SettingsDocument,
    pub revision: u64,
}

/// The revision after a change: one more, saturating.
pub open spec fn next_revision(r: u64) -> u64 {
    if r == u64::MAX {
        r
    } else {
        (r + 1) as u64
    }
}

/// The error of a save based on an outdated revision.
pub open spec fn stale_settings_error() -> (ErrorCode, Seq<char>, bool) {
    (
        ErrorCode::InvalidConfiguration,
        "settings changed in another client; reload and try again"@,
        false,
    )
}

/// What saving a settings document does (see `save_settings`).
pub open spec fn settings_saved(
    old_state: SettingsState,
    new_state: SettingsState,
    expected_revision: u64,
    values: SettingsDocument,
    schema: &Vec<SettingDefinition>,
    result: Result<(), ControlError>,
) -> bool {
    &&& old_state.revision != expected_revision ==> (result matches Err(e) && is_error(
        e,
        stale_settings_error().0,
        stale_settings_error().1,
        stale_settings_error().2,
    ) && new_state == old_state)
    &&& old_state.revision == expected_revision ==> match (result, settings_check(values, schema@)) {
        (Ok(()), Ok(())) => new_state.document == values && new_state.revision
            == next_revision(old_state.revision),
        (Err(e), Err(spec)) => is_error(e, spec.0, spec.1, spec.2) && new_state == old_state,
        _ => false,
    }
}

/// Saves a settings document if the caller saw the current revision and
/// the document is valid: the document is replaced and the revision moves
/// on. Otherwise nothing changes.
pub fn save_settings(
    state: &mut SettingsState,
    expected_revision: u64,
    values: SettingsDocument,
    schema: &Vec<SettingDefinition>,
) -> (result: Result<(), ControlError>)
    ensures
        settings_saved(
            *old(state),
            *final(state),
            expected_revision,
            values,
            schema,
            result,
        ),
{
    if state.revision != expected_revision {
        return Err(
            control_error(
                ErrorCode::InvalidConfiguration,
                "settings changed in another client; reload and try again",
                false,
            ),
        );
    }
    match validate_settings(&values, schema) {
        Ok(()) => {},
        Err(e) => return Err(e),
    }
    state.document = values;
    state.revision = if state.revision == u64::MAX {
        u64::MAX
    } else {
        state.revision + 1
    };
    Ok(())
}

/// Restores the default settings document; the revision moves on.
pub fn reset_settings(state: &mut SettingsState, defaults: SettingsDocument)
    ensures
        final(state).document == defaults,
        final(state).revision == next_revision(old(state).revision),
{
    state.document = defaults;
    state.revision = if state.revision == u64::MAX {
        u64::MAX
    } else {
        state.revision + 1
    };
}

/// Optimistic concurrency of settings: once a save based on revision `r`
/// succeeds, another save based on the same revision is refused (unless the
/// revision had reached its upper bound).
pub proof fn lemma_settings_save_is_exclusive(r: u64, saved: SettingsState)
    requires
        saved.revision == next_revision(r),
        r < u64::MAX,
    ensures
        saved.revision != r,
{
}

} // verus!
