//! Native Codex Thread history: how provider payloads are redacted and
//! bounded before they are stored, which Turns of a snapshot are published,
//! how a Turn's items split into user and assistant Messages, when a forked
//! Thread continues its parent's lineage, which Project may import a Thread,
//! and the stable Messages that project its published Turns.
use vstd::prelude::*;
use vstd::string::*;
use crate::catalog::{
    first_enabled_agent, first_provider, has_enabled_agent, require_agent, AgentProviderView,
    AgentRecord,
};
use crate::errors::{control_error, domain_error, is_error, ControlError, DomainError, ErrorCode, Outcome};
use crate::paths::{is_absolute, parts_start_with, path_is_absolute, starts_with};
use crate::permissions::AgentMode;
use crate::identity::{sha256, sha256_digest, stable_uuid, uuid_bytes, uuid_frame, uuid_hyphenated};
use crate::json::{json_string, opt_view, push_json_string, push_text};
use crate::text::{
    bounded_provider_string, chars_of, hex_bytes, is_blank, is_blank_str, push_chars,
    push_hex_bytes, str_equals, text_list_contains, texts_equal,
    texts, utf8, MAX_PROVIDER_STRING_CHARS,
};

verus! {

/// The version of the projection recorded with each Turn's content hash.
pub const PROJECTION_VERSION: u32 = 1;

/// Values nested deeper than this are replaced by a marker.
pub const MAX_PROVIDER_DEPTH: usize = 16;

/// A stored provider payload whose JSON text is longer than this many bytes
/// is replaced by its length and digest.
pub const MAX_PROVIDER_PAYLOAD_BYTES: usize = 262144;

/// Arrays and objects keep at most this many elements or members.
pub const MAX_PROVIDER_ITEMS: usize = 256;

/// A provider JSON value. An object keeps its members in order, each key once.
#[derive(Debug)]
pub enum Json {
    Null,
    Bool(bool),
    /// A number, by its JSON text.
    Number(String),
    Str(String),
    Array(Vec<Json>),
    Object(Vec<(String, Json)>),
}

/// The mathematical form of a `Json` value.
pub enum JsonValue {
    Null,
    Bool(bool),
    Number(Seq<char>),
    Str(Seq<char>),
    Array(Seq<JsonValue>),
    Object(Seq<(Seq<char>, JsonValue)>),
}

/// The view of a `Json` value.
pub open spec fn json_view(v: Json) -> JsonValue
    decreases v,
{
    match v {
        Json::Null => JsonValue::Null,
        Json::Bool(b) => JsonValue::Bool(b),
        Json::Number(n) => JsonValue::Number(n@),
        Json::Str(s) => JsonValue::Str(s@),
        Json::Array(items) => JsonValue::Array(
            Seq::new(
                items.len() as nat,
                |i: int|
                    if 0 <= i < items.len() {
                        proof {
                            assert(decreases_to!(items => items@[i]));
                        }
                        json_view(items@[i])
                    } else {
                        JsonValue::Null
                    },
            ),
        ),
        Json::Object(members) => JsonValue::Object(
            Seq::new(
                members.len() as nat,
                |i: int|
                    if 0 <= i < members.len() {
                        proof {
                            assert(decreases_to!(members => members@[i]));
                        }
                        (members@[i].0@, json_view(members@[i].1))
                    } else {
                        (Seq::empty(), JsonValue::Null)
                    },
            ),
        ),
    }
}

/// `c.to_ascii_lowercase() == w`.
pub open spec fn lowers_to(c: char, w: char) -> bool {
    if 'A' <= c <= 'Z' {
        c as u32 + 32 == w as u32
    } else {
        c == w
    }
}

/// The ASCII-lowercased `key` holds `word` at position `i`.
pub open spec fn lowered_at(key: Seq<char>, word: Seq<char>, i: int) -> bool {
    0 <= i && i + word.len() <= key.len() && forall|j: int|
        0 <= j < word.len() ==> lowers_to(key[i + j], #[trigger] word[j])
}

/// `key.to_ascii_lowercase().contains(word)`.
pub open spec fn lowered_contains(key: Seq<char>, word: Seq<char>) -> bool {
    exists|i: int| lowered_at(key, word, i)
}

/// A member whose key names a secret: its ASCII-lowercased key contains
/// `authorization`, `credential`, `password`, `secret` or `token`.
pub open spec fn sensitive_key(key: Seq<char>) -> bool {
    ||| lowered_contains(key, "authorization"@)
    ||| lowered_contains(key, "credential"@)
    ||| lowered_contains(key, "password"@)
    ||| lowered_contains(key, "secret"@)
    ||| lowered_contains(key, "token"@)
}

/// At most the first `MAX_PROVIDER_STRING_CHARS` characters.
pub open spec fn bounded_text(s: Seq<char>) -> Seq<char> {
    if s.len() <= MAX_PROVIDER_STRING_CHARS {
        s
    } else {
        s.take(MAX_PROVIDER_STRING_CHARS as int)
    }
}

/// `n` bounded by `MAX_PROVIDER_ITEMS`.
pub open spec fn kept(n: nat) -> nat {
    if n <= MAX_PROVIDER_ITEMS {
        n
    } else {
        MAX_PROVIDER_ITEMS as nat
    }
}

/// A provider value as it may be stored, at nesting depth `depth`: below
/// `MAX_PROVIDER_DEPTH` levels, strings keep their first characters, arrays
/// and objects their first elements and members, and a member whose key
/// names a secret holds `[redacted]`; deeper values become
/// `[truncated-depth]`.
pub open spec fn sanitized(v: JsonValue, depth: nat) -> JsonValue
    decreases MAX_PROVIDER_DEPTH - depth,
{
    if depth >= MAX_PROVIDER_DEPTH {
        JsonValue::Str("[truncated-depth]"@)
    } else {
        match v {
            JsonValue::Object(members) => JsonValue::Object(
                Seq::new(
                    kept(members.len()),
                    |i: int|
                        (
                            members[i].0,
                            if sensitive_key(members[i].0) {
                                JsonValue::Str("[redacted]"@)
                            } else {
                                sanitized(members[i].1, depth + 1)
                            },
                        ),
                ),
            ),
            JsonValue::Array(items) => JsonValue::Array(
                Seq::new(kept(items.len()), |i: int| sanitized(items[i], depth + 1)),
            ),
            JsonValue::Str(s) => JsonValue::Str(bounded_text(s)),
            _ => v,
        }
    }
}

fn lowers_to_exec(c: char, w: char) -> (r: bool)
    ensures
        r == lowers_to(c, w),
{
    if 'A' <= c && c <= 'Z' {
        (c as u32) + 32 == (w as u32)
    } else {
        c == w
    }
}

fn lowered_at_exec(key: &Vec<char>, word: &Vec<char>, i: usize) -> (r: bool)
    requires
        i + word.len() <= key.len(),
    ensures
        r == lowered_at(key@, word@, i as int),
{
    let mut j: usize = 0;
    while j < word.len()
        invariant
            i + word.len() <= key.len(),
            j <= word.len(),
            forall|k: int| 0 <= k < j ==> lowers_to(key@[i + k], #[trigger] word@[k]),
        decreases word.len() - j,
    {
        if !lowers_to_exec(key[i + j], word[j]) {
            return false;
        }
        j = j + 1;
    }
    true
}

fn lowered_contains_exec(key: &Vec<char>, word: &str) -> (r: bool)
    ensures
        r == lowered_contains(key@, word@),
{
    let w = chars_of(word);
    if w.len() > key.len() {
        proof {
            assert forall|i: int| !lowered_at(key@, word@, i) by {}
        }
        return false;
    }
    let last = key.len() - w.len();
    let mut i: usize = 0;
    while i <= last
        invariant
            w@ == word@,
            last + w.len() == key.len(),
            forall|k: int| 0 <= k < i ==> !#[trigger] lowered_at(key@, word@, k),
        decreases last + 1 - i,
    {
        if lowered_at_exec(key, &w, i) {
            return true;
        }
        i = i + 1;
    }
    proof {
        assert forall|k: int| !lowered_at(key@, word@, k) by {
            if 0 <= k < i {
            }
        }
    }
    false
}

/// Whether a member's key names a secret (see `sensitive_key`).
pub fn is_sensitive_key(key: &str) -> (r: bool)
    ensures
        r == sensitive_key(key@),
{
    let k = chars_of(key);
    lowered_contains_exec(&k, "authorization") || lowered_contains_exec(&k, "credential")
        || lowered_contains_exec(&k, "password") || lowered_contains_exec(&k, "secret")
        || lowered_contains_exec(&k, "token")
}

fn text_json(s: &str) -> (v: Json)
    ensures
        json_view(v) == JsonValue::Str(s@),
{
    Json::Str(String::from_str(s))
}

/// Redacts and bounds a provider value found at nesting depth `depth`
/// (see `sanitized`).
pub fn sanitize_provider_value(value: &Json, depth: usize) -> (result: Json)
    ensures
        json_view(result) == sanitized(json_view(*value), depth as nat),
    decreases MAX_PROVIDER_DEPTH - depth,
{
    if depth >= MAX_PROVIDER_DEPTH {
        return text_json("[truncated-depth]");
    }
    match value {
        Json::Object(members) => {
            let n = if members.len() <= MAX_PROVIDER_ITEMS {
                members.len()
            } else {
                MAX_PROVIDER_ITEMS
            };
            let ghost src = json_view(*value);
            let mut out: Vec<(String, Json)> = Vec::new();
            let mut i: usize = 0;
            while i < n
                invariant
                    n <= members.len(),
                    depth < MAX_PROVIDER_DEPTH,
                    i <= n,
                    out.len() == i,
                    src == json_view(Json::Object(*members)),
                    forall|k: int|
                        0 <= k < i ==> (#[trigger] out@[k]).0@ == members@[k].0@ && json_view(
                            out@[k].1,
                        ) == (if sensitive_key(members@[k].0@) {
                            JsonValue::Str("[redacted]"@)
                        } else {
                            sanitized(json_view(members@[k].1), (depth + 1) as nat)
                        }),
                decreases n - i,
            {
                let key = members[i].0.clone();
                let item = if is_sensitive_key(members[i].0.as_str()) {
                    text_json("[redacted]")
                } else {
                    sanitize_provider_value(&members[i].1, depth + 1)
                };
                out.push((key, item));
                i = i + 1;
            }
            let result = Json::Object(out);
            proof {
                let a = json_view(result);
                let b = sanitized(src, depth as nat);
                assert(a->Object_0 =~= b->Object_0);
            }
            result
        },
        Json::Array(items) => {
            let n = if items.len() <= MAX_PROVIDER_ITEMS {
                items.len()
            } else {
                MAX_PROVIDER_ITEMS
            };
            let ghost src = json_view(*value);
            let mut out: Vec<Json> = Vec::new();
            let mut i: usize = 0;
            while i < n
                invariant
                    n <= items.len(),
                    depth < MAX_PROVIDER_DEPTH,
                    i <= n,
                    out.len() == i,
                    src == json_view(Json::Array(*items)),
                    forall|k: int|
                        0 <= k < i ==> json_view(#[trigger] out@[k]) == sanitized(
                            json_view(items@[k]),
                            (depth + 1) as nat,
                        ),
                decreases n - i,
            {
                out.push(sanitize_provider_value(&items[i], depth + 1));
                i = i + 1;
            }
            let result = Json::Array(out);
            proof {
                let a = json_view(result);
                let b = sanitized(src, depth as nat);
                assert(a->Array_0 =~= b->Array_0);
            }
            result
        },
        Json::Str(s) => Json::Str(bounded_provider_string(s.as_str())),
        Json::Number(n) => Json::Number(n.clone()),
        Json::Bool(b) => Json::Bool(*b),
        Json::Null => Json::Null,
    }
}

/// The compact JSON text of a value, as `serde_json::to_vec` writes it:
/// no whitespace, members and elements in order, strings escaped as
/// `json_string` says and numbers by their text.
pub open spec fn json_text(v: JsonValue) -> Seq<u8>
    decreases v, 0int,
{
    match v {
        JsonValue::Null => utf8("null"@),
        JsonValue::Bool(b) => if b {
            utf8("true"@)
        } else {
            utf8("false"@)
        },
        JsonValue::Number(n) => utf8(n),
        JsonValue::Str(s) => json_string(s),
        JsonValue::Array(items) => seq![91u8] + elements_text(items, items.len() as int) + seq![93u8],
        JsonValue::Object(members) => seq![123u8] + members_text(members, members.len() as int) + seq![
            125u8,
        ],
    }
}

/// The first `n` elements, separated by commas.
pub open spec fn elements_text(items: Seq<JsonValue>, n: int) -> Seq<u8>
    decreases items, n,
{
    if n <= 0 || n > items.len() {
        Seq::empty()
    } else if n == 1 {
        json_text(items[0])
    } else {
        elements_text(items, n - 1) + seq![44u8] + json_text(items[n - 1])
    }
}

/// The first `n` members as `"key":value`, separated by commas.
pub open spec fn members_text(members: Seq<(Seq<char>, JsonValue)>, n: int) -> Seq<u8>
    decreases members, n,
{
    if n <= 0 || n > members.len() {
        Seq::empty()
    } else {
        let last = json_string(members[n - 1].0) + seq![58u8] + {
            proof {
                assert(decreases_to!(members => members[n - 1]));
            }
            json_text(members[n - 1].1)
        };
        if n == 1 {
            last
        } else {
            members_text(members, n - 1) + seq![44u8] + last
        }
    }
}

/// Appends the compact JSON text of `v` (see `json_text`).
pub fn push_json(out: &mut Vec<u8>, v: &Json)
    ensures
        final(out)@ == old(out)@ + json_text(json_view(*v)),
    decreases v,
{
    let ghost start = out@;
    match v {
        Json::Null => push_text(out, "null"),
        Json::Bool(b) => if *b {
            push_text(out, "true")
        } else {
            push_text(out, "false")
        },
        Json::Number(n) => push_text(out, n.as_str()),
        Json::Str(s) => push_json_string(out, s.as_str()),
        Json::Array(items) => {
            let ghost view = json_view(*v)->Array_0;
            out.push(91);
            let mut i: usize = 0;
            while i < items.len()
                invariant
                    i <= items.len(),
                    view == json_view(Json::Array(*items))->Array_0,
                    *v == Json::Array(*items),
                    out@ == start + seq![91u8] + elements_text(view, i as int),
                decreases items.len() - i,
            {
                if i > 0 {
                    out.push(44);
                }
                proof {
                    assert(decreases_to!(*v => items@[i as int]));
                }
                push_json(out, &items[i]);
                proof {
                    assert(view[i as int] == json_view(items@[i as int]));
                    assert(out@ =~= start + seq![91u8] + elements_text(view, i + 1));
                }
                i = i + 1;
            }
            out.push(93);
            proof {
                assert(out@ =~= start + json_text(json_view(*v)));
            }
        },
        Json::Object(members) => {
            let ghost view = json_view(*v)->Object_0;
            out.push(123);
            let mut i: usize = 0;
            while i < members.len()
                invariant
                    i <= members.len(),
                    view == json_view(Json::Object(*members))->Object_0,
                    *v == Json::Object(*members),
                    out@ == start + seq![123u8] + members_text(view, i as int),
                decreases members.len() - i,
            {
                if i > 0 {
                    out.push(44);
                }
                push_json_string(out, members[i].0.as_str());
                out.push(58);
                proof {
                    assert(decreases_to!(*v => members@[i as int].1));
                }
                push_json(out, &members[i].1);
                proof {
                    assert(view[i as int].0 == members@[i as int].0@);
                    assert(view[i as int].1 == json_view(members@[i as int].1));
                    assert(out@ =~= start + seq![123u8] + members_text(view, i + 1));
                }
                i = i + 1;
            }
            out.push(125);
            proof {
                assert(out@ =~= start + json_text(json_view(*v)));
            }
        },
    }
}

/// A copy of a value.
pub fn copy_json(v: &Json) -> (c: Json)
    ensures
        json_view(c) == json_view(*v),
    decreases v,
{
    match v {
        Json::Null => Json::Null,
        Json::Bool(b) => Json::Bool(*b),
        Json::Number(n) => Json::Number(n.clone()),
        Json::Str(s) => Json::Str(s.clone()),
        Json::Array(items) => {
            let ghost view = json_view(*v)->Array_0;
            let mut out: Vec<Json> = Vec::new();
            let mut i: usize = 0;
            while i < items.len()
                invariant
                    i <= items.len(),
                    out.len() == i,
                    view == json_view(Json::Array(*items))->Array_0,
                    *v == Json::Array(*items),
                    forall|k: int| 0 <= k < i ==> json_view(#[trigger] out@[k]) == json_view(items@[k]),
                decreases items.len() - i,
            {
                proof {
                    assert(decreases_to!(*v => items@[i as int]));
                }
                out.push(copy_json(&items[i]));
                i = i + 1;
            }
            let c = Json::Array(out);
            proof {
                assert(json_view(c)->Array_0 =~= json_view(*v)->Array_0);
            }
            c
        },
        Json::Object(members) => {
            let ghost view = json_view(*v)->Object_0;
            let mut out: Vec<(String, Json)> = Vec::new();
            let mut i: usize = 0;
            while i < members.len()
                invariant
                    i <= members.len(),
                    out.len() == i,
                    view == json_view(Json::Object(*members))->Object_0,
                    *v == Json::Object(*members),
                    forall|k: int|
                        0 <= k < i ==> (#[trigger] out@[k]).0@ == members@[k].0@ && json_view(out@[k].1)
                            == json_view(members@[k].1),
                decreases members.len() - i,
            {
                proof {
                    assert(decreases_to!(*v => members@[i as int].1));
                }
                out.push((members[i].0.clone(), copy_json(&members[i].1)));
                i = i + 1;
            }
            let c = Json::Object(out);
            proof {
                assert(json_view(c)->Object_0 =~= json_view(*v)->Object_0);
            }
            c
        },
    }
}

/// The value of the first member named `key`, if any.
pub open spec fn member(members: Seq<(Seq<char>, JsonValue)>, key: Seq<char>) -> Option<JsonValue>
    decreases members.len(),
{
    if members.len() == 0 {
        None
    } else if members[0].0 == key {
        Some(members[0].1)
    } else {
        member(members.drop_first(), key)
    }
}

/// `value.get(key).and_then(Value::as_str).unwrap_or_default()`: the text of
/// an object's string member, or the empty text.
pub open spec fn text_member(v: JsonValue, key: Seq<char>) -> Seq<char> {
    match v {
        JsonValue::Object(members) => match member(members, key) {
            Some(JsonValue::Str(s)) => s,
            _ => Seq::empty(),
        },
        _ => Seq::empty(),
    }
}

/// The text of an object's string member named `key`, or the empty text
/// (see `text_member`).
pub fn text_member_of(v: &Json, key: &str) -> (text: String)
    ensures
        text@ == text_member(json_view(*v), key@),
{
    match v {
        Json::Object(members) => {
            let ghost view = json_view(*v)->Object_0;
            proof {
                assert(view.skip(0) =~= view);
            }
            let mut i: usize = 0;
            while i < members.len()
                invariant
                    i <= members.len(),
                    view == json_view(Json::Object(*members))->Object_0,
                    *v == Json::Object(*members),
                    member(view, key@) == member(view.skip(i as int), key@),
                decreases members.len() - i,
            {
                proof {
                    assert(view.skip(i as int).drop_first() =~= view.skip(i + 1));
                    assert(view.skip(i as int)[0] == view[i as int]);
                    assert(view[i as int] == (members@[i as int].0@, json_view(members@[i as int].1)));
                }
                if str_equals(members[i].0.as_str(), key) {
                    proof {
                        assert(member(view.skip(i as int), key@) == Some(view[i as int].1));
                    }
                    return match &members[i].1 {
                        Json::Str(s) => s.clone(),
                        _ => String::new(),
                    };
                }
                i = i + 1;
            }
            String::new()
        },
        _ => String::new(),
    }
}

/// A Turn of a native Codex Thread, as the history source reports it.
#[derive(Debug)]
pub struct CodexTurn {
    pub id: String,
    pub status: String,
    pub items: Vec<Json>,
    /// The source returned every item of the Turn.
    pub items_full: bool,
    pub error: Option<Json>,
    pub started_at: Option<i64>,
    pub completed_at: Option<i64>,
}

/// The value whose JSON text identifies a Turn's content: its id, status,
/// redacted error (`null` when none), sanitized items and the projection
/// version, with the keys in the order `serde_json`'s map keeps them.
pub open spec fn turn_hash_input(
    id: Seq<char>,
    status: Seq<char>,
    error: Option<JsonValue>,
    items: Seq<JsonValue>,
) -> JsonValue {
    JsonValue::Object(
        seq![
            ("error"@, sanitized(
                match error {
                    Some(e) => e,
                    None => JsonValue::Null,
                },
                0,
            )),
            ("id"@, JsonValue::Str(id)),
            ("items"@, JsonValue::Array(items)),
            ("projection_version"@, JsonValue::Number("1"@)),
            ("status"@, JsonValue::Str(status)),
        ],
    )
}

/// The lowercase hex SHA-256 of the JSON text of `turn_hash_input`.
pub open spec fn content_hash(
    id: Seq<char>,
    status: Seq<char>,
    error: Option<JsonValue>,
    items: Seq<JsonValue>,
) -> Seq<char> {
    hex_bytes(sha256(json_text(turn_hash_input(id, status, error, items))))
}

/// The view of an optional value.
pub open spec fn opt_json_view(v: Option<Json>) -> Option<JsonValue> {
    match v {
        Some(j) => Some(json_view(j)),
        None => None,
    }
}

/// The views of a list of values.
pub open spec fn json_views(values: Seq<Json>) -> Seq<JsonValue> {
    values.map_values(|v: Json| json_view(v))
}

/// The content hash of a Turn whose sanitized items are `items` (see
/// `content_hash`).
pub fn turn_content_hash(turn: &CodexTurn, items: &Vec<Json>) -> (hash: String)
    ensures
        hash@ == content_hash(turn.id@, turn.status@, opt_json_view(turn.error), json_views(items@)),
{
    let error = match &turn.error {
        Some(e) => sanitize_provider_value(e, 0),
        None => sanitize_provider_value(&Json::Null, 0),
    };
    let mut copies: Vec<Json> = Vec::new();
    let mut i: usize = 0;
    while i < items.len()
        invariant
            i <= items.len(),
            copies.len() == i,
            forall|k: int| 0 <= k < i ==> json_view(#[trigger] copies@[k]) == json_view(items@[k]),
        decreases items.len() - i,
    {
        copies.push(copy_json(&items[i]));
        i = i + 1;
    }
    let mut members: Vec<(String, Json)> = Vec::new();
    members.push((String::from_str("error"), error));
    members.push((String::from_str("id"), Json::Str(turn.id.clone())));
    members.push((String::from_str("items"), Json::Array(copies)));
    members.push((String::from_str("projection_version"), Json::Number(String::from_str("1"))));
    members.push((String::from_str("status"), Json::Str(turn.status.clone())));
    let input = Json::Object(members);
    proof {
        let a = json_view(input);
        let b = turn_hash_input(turn.id@, turn.status@, opt_json_view(turn.error), json_views(items@));
        assert(json_view(Json::Array(copies))->Array_0 =~= json_views(items@));
        assert(a->Object_0[0] == b->Object_0[0]);
        assert(members@[1].0@ == "id"@);
        assert(members@[1].1 == Json::Str(turn.id));
        assert(json_view(members@[1].1) == JsonValue::Str(turn.id@));
        assert(a->Object_0[1] == b->Object_0[1]);
        assert(a->Object_0[2] == b->Object_0[2]);
        assert(members@[3].0@ == "projection_version"@);
        assert(json_view(members@[3].1) == JsonValue::Number("1"@));
        assert(a->Object_0[3] == b->Object_0[3]);
        assert(members@[4].0@ == "status"@);
        assert(members@[4].1 == Json::Str(turn.status));
        assert(json_view(members@[4].1) == JsonValue::Str(turn.status@));
        assert(a->Object_0[4] == b->Object_0[4]);
        assert(a->Object_0 =~= b->Object_0);
    }
    let mut bytes: Vec<u8> = Vec::new();
    push_json(&mut bytes, &input);
    let digest = sha256_digest(bytes.as_slice());
    let mut hash = String::new();
    push_hex_bytes(&mut hash, digest.as_slice());
    proof {
        assert(bytes@ =~= json_text(json_view(input)));
    }
    hash
}

/// Every item has a nonempty `id` and `type` text, and no two items share an id.
pub open spec fn items_identified(items: Seq<JsonValue>) -> bool {
    &&& forall|i: int|
        0 <= i < items.len() ==> text_member(#[trigger] items[i], "id"@).len() > 0 && text_member(
            items[i],
            "type"@,
        ).len() > 0
    &&& forall|i: int, j: int|
        0 <= i < j < items.len() ==> text_member(#[trigger] items[i], "id"@) != text_member(
            #[trigger] items[j],
            "id"@,
        )
}

/// Whether every item of a Turn is identified once (see `items_identified`).
pub fn validate_item_identities(items: &Vec<Json>) -> (ok: bool)
    ensures
        ok == items_identified(json_views(items@)),
{
    let ghost views = json_views(items@);
    let mut ids: Vec<String> = Vec::new();
    let mut i: usize = 0;
    while i < items.len()
        invariant
            i <= items.len(),
            views == json_views(items@),
            ids.len() == i,
            forall|k: int| 0 <= k < i ==> (#[trigger] ids@[k])@ == text_member(views[k], "id"@),
            forall|k: int|
                0 <= k < i ==> text_member(#[trigger] views[k], "id"@).len() > 0 && text_member(
                    views[k],
                    "type"@,
                ).len() > 0,
            forall|a: int, b: int|
                0 <= a < b < i ==> text_member(#[trigger] views[a], "id"@) != text_member(
                    #[trigger] views[b],
                    "id"@,
                ),
        decreases items.len() - i,
    {
        let id = text_member_of(&items[i], "id");
        let kind = text_member_of(&items[i], "type");
        let seen = text_list_contains(&ids, id.as_str());
        proof {
            assert(views[i as int] == json_view(items@[i as int]));
        }
        if id.as_str().unicode_len() == 0 || kind.as_str().unicode_len() == 0 || seen {
            proof {
                if seen {
                    let a = choose|a: int| 0 <= a < texts(ids@).len() && texts(ids@)[a] == id@;
                    assert(text_member(views[a], "id"@) == text_member(views[i as int], "id"@));
                }
            }
            return false;
        }
        proof {
            assert forall|a: int| 0 <= a < i implies text_member(#[trigger] views[a], "id"@)
                != text_member(views[i as int], "id"@) by {
                assert(texts(ids@)[a] == ids@[a]@);
            }
        }
        ids.push(id);
        i = i + 1;
    }
    true
}

/// A Turn as the publication rules read it.
pub struct TurnView {
    pub id: Seq<char>,
    pub status: Seq<char>,
    pub items: Seq<JsonValue>,
    pub items_full: bool,
    pub error: Option<JsonValue>,
    pub started_at: Option<i64>,
    pub completed_at: Option<i64>,
}

/// The view of a Turn.
pub open spec fn turn_view(t: CodexTurn) -> TurnView {
    TurnView {
        id: t.id@,
        status: t.status@,
        items: json_views(t.items@),
        items_full: t.items_full,
        error: opt_json_view(t.error),
        started_at: t.started_at,
        completed_at: t.completed_at,
    }
}

/// The views of a list of Turns.
pub open spec fn turn_views(turns: Seq<CodexTurn>) -> Seq<TurnView> {
    turns.map_values(|t: CodexTurn| turn_view(t))
}

/// Items as they are published: each sanitized from depth 0.
pub open spec fn sanitized_items(items: Seq<JsonValue>) -> Seq<JsonValue> {
    items.map_values(|x: JsonValue| sanitized(x, 0))
}

/// The content hash of a Turn (see `content_hash`), over its sanitized items.
pub open spec fn turn_hash(t: TurnView) -> Seq<char> {
    content_hash(t.id, t.status, t.error, sanitized_items(t.items))
}

/// A Turn has ended: it completed or failed, or it was interrupted and
/// either completed, or the writer confirmed it, or a stored Message already
/// records its content hash.
pub open spec fn turn_terminal(
    t: TurnView,
    writer_confirmed: bool,
    confirmed: Seq<Seq<char>>,
) -> bool {
    ||| t.status == "completed"@
    ||| t.status == "failed"@
    ||| t.status == "interrupted"@ && (t.completed_at is Some || writer_confirmed
        || confirmed.contains(turn_hash(t)))
}

/// A published Turn: the Turn, its sanitized items and its content hash.
pub struct PublishedView {
    pub turn: TurnView,
    pub items: Seq<JsonValue>,
    pub content_hash: Seq<char>,
}

/// The error of a Turn published after an unfinished one.
pub open spec fn incomplete_tail_error() -> (ErrorCode, Seq<char>, bool) {
    (
        ErrorCode::CodexHistoryIncomplete,
        "Codex history contains a publishable Turn after an incomplete tail"@,
        false,
    )
}

/// The error of a Turn whose items are not identified once each.
pub open spec fn item_identity_error() -> (ErrorCode, Seq<char>, bool) {
    (ErrorCode::CodexTurnIdConflict, "Codex Turn contains a missing or duplicate item identity"@, false)
}

/// The publication of the first `n` Turns: the published Turns in order and
/// whether an unfinished Turn (one not fully read, or not yet ended) was
/// seen. Unfinished Turns are left out; a finished Turn after one is an
/// error, as is a finished Turn whose items are not identified once each.
pub open spec fn publication(
    turns: Seq<TurnView>,
    writer_confirmed: bool,
    confirmed: Seq<Seq<char>>,
    n: int,
) -> Outcome<(Seq<PublishedView>, bool)>
    decreases n,
{
    if n <= 0 {
        Ok((Seq::empty(), false))
    } else {
        match publication(turns, writer_confirmed, confirmed, n - 1) {
            Err(e) => Err(e),
            Ok((published, incomplete)) => {
                let t = turns[n - 1];
                if !t.items_full || !turn_terminal(t, writer_confirmed, confirmed) {
                    Ok((published, true))
                } else if incomplete {
                    Err(incomplete_tail_error())
                } else if !items_identified(sanitized_items(t.items)) {
                    Err(item_identity_error())
                } else {
                    Ok(
                        (
                            published.push(
                                PublishedView {
                                    turn: t,
                                    items: sanitized_items(t.items),
                                    content_hash: turn_hash(t),
                                },
                            ),
                            false,
                        ),
                    )
                }
            },
        }
    }
}

proof fn lemma_publication_error_stays(
    turns: Seq<TurnView>,
    writer_confirmed: bool,
    confirmed: Seq<Seq<char>>,
    n: int,
    m: int,
)
    requires
        0 <= n <= m,
        publication(turns, writer_confirmed, confirmed, n) is Err,
    ensures
        publication(turns, writer_confirmed, confirmed, m) == publication(
            turns,
            writer_confirmed,
            confirmed,
            n,
        ),
    decreases m - n,
{
    if m > n {
        lemma_publication_error_stays(turns, writer_confirmed, confirmed, n, m - 1);
    }
}

/// Whether a Thread's history was read whole.
#[derive(Clone, Copy, Debug, PartialEq, Eq, Structural)]
pub enum Completeness {
    Full,
    Partial,
}

/// A Turn as it is published.
#[derive(Debug)]
pub struct PublishedTurn {
    pub id: String,
    pub status: String,
    pub error: Option<Json>,
    pub started_at: Option<i64>,
    pub completed_at: Option<i64>,
    /// The Turn's items, sanitized.
    pub items: Vec<Json>,
    pub content_hash: String,
}

/// The view of a published Turn.
pub open spec fn published_view(p: PublishedTurn) -> PublishedView {
    PublishedView {
        turn: TurnView {
            id: p.id@,
            status: p.status@,
            items: Seq::empty(),
            items_full: true,
            error: opt_json_view(p.error),
            started_at: p.started_at,
            completed_at: p.completed_at,
        },
        items: json_views(p.items@),
        content_hash: p.content_hash@,
    }
}

/// A published view with the Turn's own items forgotten (a `PublishedTurn`
/// keeps only the sanitized ones).
pub open spec fn without_raw_items(v: PublishedView) -> PublishedView {
    PublishedView { turn: TurnView { items: Seq::empty(), ..v.turn }, ..v }
}

/// The views of published Turns.
pub open spec fn published_views(turns: Seq<PublishedTurn>) -> Seq<PublishedView> {
    turns.map_values(|p: PublishedTurn| published_view(p))
}

/// Published views with the Turns' own items forgotten.
pub open spec fn trimmed(views: Seq<PublishedView>) -> Seq<PublishedView> {
    views.map_values(|v: PublishedView| without_raw_items(v))
}

fn copy_opt_json(v: &Option<Json>) -> (c: Option<Json>)
    ensures
        opt_json_view(c) == opt_json_view(*v),
{
    match v {
        Some(j) => Some(copy_json(j)),
        None => None,
    }
}

/// Publishes the finished Turns of a snapshot in order (see `publication`);
/// `confirmed` holds the content hashes that stored Messages record. The
/// history is `Partial` when an unfinished Turn was left out.
pub fn normalize_turns(turns: &Vec<CodexTurn>, writer_confirmed: bool, confirmed: &Vec<String>) -> (result: Result<(Vec<PublishedTurn>, Completeness), ControlError>)
    ensures
        match publication(turn_views(turns@), writer_confirmed, texts(confirmed@), turns.len() as int) {
            Ok((published, incomplete)) => result matches Ok((out, completeness)) && published_views(
                out@,
            ) == trimmed(published) && completeness == (
            if incomplete {
                Completeness::Partial
            } else {
                Completeness::Full
            }),
            Err(e) => result matches Err(err) && is_error(err, e.0, e.1, e.2),
        },
{
    let ghost views = turn_views(turns@);
    let ghost hashes = texts(confirmed@);
    let mut out: Vec<PublishedTurn> = Vec::new();
    let mut incomplete = false;
    let mut i: usize = 0;
    while i < turns.len()
        invariant
            i <= turns.len(),
            views == turn_views(turns@),
            hashes == texts(confirmed@),
            publication(views, writer_confirmed, hashes, i as int) matches Ok((published, inc))
                && published_views(out@) == trimmed(published) && inc == incomplete,
        decreases turns.len() - i,
    {
        let turn = &turns[i];
        let ghost t = views[i as int];
        proof {
            assert(t == turn_view(*turn));
        }
        let mut items: Vec<Json> = Vec::new();
        let mut k: usize = 0;
        while k < turn.items.len()
            invariant
                k <= turn.items.len(),
                items.len() == k,
                forall|j: int|
                    0 <= j < k ==> json_view(#[trigger] items@[j]) == sanitized(
                        json_view(turn.items@[j]),
                        0,
                    ),
            decreases turn.items.len() - k,
        {
            items.push(sanitize_provider_value(&turn.items[k], 0));
            k = k + 1;
        }
        proof {
            assert(json_views(items@) =~= sanitized_items(t.items));
        }
        let hash = turn_content_hash(turn, &items);
        let status = turn.status.as_str();
        let terminal = str_equals(status, "completed") || str_equals(status, "failed") || (
        str_equals(status, "interrupted") && (turn.completed_at.is_some() || writer_confirmed
            || text_list_contains(confirmed, hash.as_str())));
        proof {
            assert(hash@ == turn_hash(t));
            assert(terminal == turn_terminal(t, writer_confirmed, hashes));
        }
        if !turn.items_full || !terminal {
            incomplete = true;
            i = i + 1;
            continue;
        }
        if incomplete {
            proof {
                lemma_publication_error_stays(views, writer_confirmed, hashes, i + 1, turns.len() as int);
            }
            return Err(
                control_error(
                    ErrorCode::CodexHistoryIncomplete,
                    "Codex history contains a publishable Turn after an incomplete tail",
                    false,
                ),
            );
        }
        if !validate_item_identities(&items) {
            proof {
                lemma_publication_error_stays(views, writer_confirmed, hashes, i + 1, turns.len() as int);
            }
            return Err(
                control_error(
                    ErrorCode::CodexTurnIdConflict,
                    "Codex Turn contains a missing or duplicate item identity",
                    false,
                ),
            );
        }
        let published = PublishedTurn {
            id: turn.id.clone(),
            status: turn.status.clone(),
            error: copy_opt_json(&turn.error),
            started_at: turn.started_at,
            completed_at: turn.completed_at,
            items,
            content_hash: hash,
        };
        let ghost before = out@;
        out.push(published);
        proof {
            let prev = publication(views, writer_confirmed, hashes, i as int)->Ok_0.0;
            let new_view = PublishedView {
                turn: t,
                items: sanitized_items(t.items),
                content_hash: turn_hash(t),
            };
            let next = prev.push(new_view);
            assert(opt_json_view(published.error) == t.error);
            assert(published_view(published).turn == without_raw_items(new_view).turn);
            assert(published_view(published) == without_raw_items(new_view));
            assert(out@ =~= before.push(published));
            assert(published_views(before) == trimmed(prev));
            assert(published_views(before).len() == before.len());
            assert(trimmed(prev).len() == prev.len());
            assert(next.len() == out@.len());
            assert forall|j: int| 0 <= j < out@.len() implies published_views(out@)[j] == trimmed(
                next,
            )[j] by {
                if j < before.len() {
                    assert(published_views(before)[j] == trimmed(prev)[j]);
                    assert(out@[j] == before[j]);
                    assert(next[j] == prev[j]);
                } else {
                    assert(out@[j] == published);
                    assert(next[j] == new_view);
                }
            }
            assert(published_views(out@) =~= trimmed(next));
        }
        i = i + 1;
    }
    Ok((out, if incomplete { Completeness::Partial } else { Completeness::Full }))
}

/// An item written by the user: its `type` is `userMessage`.
pub open spec fn is_user_item(item: JsonValue) -> bool {
    text_member(item, "type"@) == "userMessage"@
}

/// One Message of a Turn: whether the user wrote it, and the range of the
/// Turn's items it holds.
#[derive(Clone, Copy, Debug, PartialEq, Eq, Structural)]
pub struct Segment {
    pub user: bool,
    pub start: usize,
    pub end: usize,
}

/// A segment as a triple of its role and item range.
pub open spec fn segment_view(s: Segment) -> (bool, int, int) {
    (s.user, s.start as int, s.end as int)
}

/// The segments closed among the first `n` items, and where the run of
/// assistant items still open begins, if one is.
pub open spec fn segment_scan(items: Seq<JsonValue>, n: int) -> (Seq<(bool, int, int)>, Option<int>)
    decreases n,
{
    if n <= 0 {
        (Seq::empty(), None)
    } else {
        let (closed, open) = segment_scan(items, n - 1);
        if is_user_item(items[n - 1]) {
            let flushed = match open {
                Some(start) => closed.push((false, start, n - 1)),
                None => closed,
            };
            (flushed.push((true, n - 1, n)), None)
        } else {
            (
                closed,
                match open {
                    Some(start) => Some(start),
                    None => Some(n - 1),
                },
            )
        }
    }
}

/// How a Turn's items split into Messages: each user item alone, each run
/// of other items together as one assistant Message, in order; a Turn
/// without items still gives one empty assistant Message.
pub open spec fn segments_of(items: Seq<JsonValue>) -> Seq<(bool, int, int)> {
    let (closed, open) = segment_scan(items, items.len() as int);
    let all = match open {
        Some(start) => closed.push((false, start, items.len() as int)),
        None => closed,
    };
    if all.len() == 0 {
        seq![(false, 0, 0)]
    } else {
        all
    }
}

/// The views of a list of segments.
pub open spec fn segment_views(segments: Seq<Segment>) -> Seq<(bool, int, int)> {
    segments.map_values(|s: Segment| segment_view(s))
}

/// Splits a Turn's items into Messages (see `segments_of`).
pub fn turn_segments(items: &Vec<Json>) -> (segments: Vec<Segment>)
    ensures
        segment_views(segments@) == segments_of(json_views(items@)),
{
    let ghost views = json_views(items@);
    let mut segments: Vec<Segment> = Vec::new();
    let mut open: Option<usize> = None;
    let mut i: usize = 0;
    while i < items.len()
        invariant
            i <= items.len(),
            views == json_views(items@),
            segment_scan(views, i as int) == (
                segment_views(segments@),
                match open {
                    Some(start) => Some(start as int),
                    None => None,
                },
            ),
            forall|start: usize| open == Some(start) ==> start < i,
        decreases items.len() - i,
    {
        let kind = text_member_of(&items[i], "type");
        let user = str_equals(kind.as_str(), "userMessage");
        proof {
            assert(views[i as int] == json_view(items@[i as int]));
            assert(user == is_user_item(views[i as int]));
        }
        let ghost before = segments@;
        if user {
            if let Some(start) = open {
                segments.push(Segment { user: false, start, end: i });
            }
            segments.push(Segment { user: true, start: i, end: i + 1 });
            open = None;
            proof {
                let (closed, o) = segment_scan(views, i as int);
                let flushed = match o {
                    Some(start) => closed.push((false, start, i as int)),
                    None => closed,
                };
                assert(segment_views(segments@) =~= flushed.push((true, i as int, i + 1)));
            }
        } else if open.is_none() {
            open = Some(i);
        }
        i = i + 1;
    }
    if let Some(start) = open {
        segments.push(Segment { user: false, start, end: items.len() });
    }
    if segments.len() == 0 {
        segments.push(Segment { user: false, start: 0, end: 0 });
    }
    proof {
        assert(segment_views(segments@) =~= segments_of(views));
    }
    segments
}

/// A Turn's key in a lineage: its id and content hash.
pub open spec fn turn_key(id: Seq<char>, hash: Seq<char>) -> (Seq<char>, Seq<char>) {
    (id, hash)
}

/// The keys of published Turns, in order.
pub open spec fn published_keys(turns: Seq<PublishedView>) -> Seq<(Seq<char>, Seq<char>)> {
    turns.map_values(|t: PublishedView| turn_key(t.turn.id, t.content_hash))
}

/// The views of a list of text pairs.
pub open spec fn pair_views(pairs: Seq<(String, String)>) -> Seq<(Seq<char>, Seq<char>)> {
    pairs.map_values(|p: (String, String)| (p.0@, p.1@))
}

/// The parent's Turns, by id and content hash, begin the child's.
pub open spec fn turns_extend(
    parent: Seq<(Seq<char>, Seq<char>)>,
    child: Seq<(Seq<char>, Seq<char>)>,
) -> bool {
    parent.len() <= child.len() && forall|i: int| 0 <= i < parent.len() ==> parent[i] == child[i]
}

/// Whether a forked Thread's published Turns begin with its parent's (see
/// `turns_extend`); `parent` lists the parent's Turn ids and content hashes.
pub fn extends_parent(parent: &Vec<(String, String)>, child: &Vec<PublishedTurn>) -> (r: bool)
    ensures
        r == turns_extend(pair_views(parent@), published_keys(published_views(child@))),
{
    let ghost p = pair_views(parent@);
    let ghost c = published_keys(published_views(child@));
    if parent.len() > child.len() {
        return false;
    }
    let mut i: usize = 0;
    while i < parent.len()
        invariant
            i <= parent.len() <= child.len(),
            p == pair_views(parent@),
            c == published_keys(published_views(child@)),
            forall|k: int| 0 <= k < i ==> p[k] == c[k],
        decreases parent.len() - i,
    {
        proof {
            assert(p[i as int] == (parent@[i as int].0@, parent@[i as int].1@));
            assert(c[i as int] == (child@[i as int].id@, child@[i as int].content_hash@));
        }
        if !str_equals(parent[i].0.as_str(), child[i].id.as_str()) || !str_equals(
            parent[i].1.as_str(),
            child[i].content_hash.as_str(),
        ) {
            return false;
        }
        i = i + 1;
    }
    true
}

/// How a Thread's lineage relates to the Thread it was forked from.
#[derive(Clone, Copy, Debug, PartialEq, Eq, Structural)]
pub enum Relationship {
    /// Not forked.
    Independent,
    /// Forked, but the parent could not be shown to begin it.
    Unresolved,
    /// Forked, and the parent's Turns begin it: it shares the parent's lineage.
    Verified,
}

/// A Session bound to a native Codex Thread, as lineage resolution reads it.
#[derive(Debug)]
pub struct ThreadBinding {
    pub session_id: String,
    pub project_id: String,
    pub agent_id: String,
    pub provider_id: String,
    pub thread_id: String,
    pub lineage_id: String,
    pub relationship: Relationship,
    /// The Thread's whole history was read when it was last synchronized.
    pub history_full: bool,
    /// The ids and content hashes of the Turns on the Session's path.
    pub turns: Vec<(String, String)>,
}

/// The stable UUID text of a list of parts (see `stable_uuid`).
pub open spec fn stable_id(parts: Seq<Seq<char>>) -> Seq<char> {
    uuid_hyphenated(uuid_bytes(sha256(uuid_frame(parts))))
}

/// The lineage of a Thread that continues none.
pub open spec fn independent_lineage(
    project_id: Seq<char>,
    provider_id: Seq<char>,
    thread_id: Seq<char>,
) -> Seq<char> {
    stable_id(seq!["lineage"@, project_id, provider_id, thread_id])
}

/// A binding that can serve as the parent of a forked Thread: the same
/// Project and provider, the parent Thread, and a whole history.
pub open spec fn is_parent_binding(
    b: ThreadBinding,
    project_id: Seq<char>,
    provider_id: Seq<char>,
    parent_thread: Seq<char>,
) -> bool {
    b.project_id@ == project_id && b.provider_id@ == provider_id && b.thread_id@ == parent_thread
        && b.history_full
}

/// The lineage of a Thread and how it relates to its parent: a bound
/// Session keeps its own; an unforked Thread is independent; a forked one
/// takes the lineage of the first eligible parent binding whose Turns begin
/// its own, and is otherwise unresolved with an independent lineage.
pub open spec fn lineage_of(
    thread_id: Seq<char>,
    forked_from: Option<Seq<char>>,
    provider_id: Seq<char>,
    project_id: Seq<char>,
    existing: Option<ThreadBinding>,
    bindings: Seq<ThreadBinding>,
    child: Seq<(Seq<char>, Seq<char>)>,
) -> (Seq<char>, Relationship) {
    let independent = independent_lineage(project_id, provider_id, thread_id);
    match existing {
        Some(b) => (b.lineage_id@, b.relationship),
        None => match forked_from {
            None => (independent, Relationship::Independent),
            Some(parent_thread) => if exists|k: int|
                0 <= k < bindings.len() && is_parent_binding(
                    #[trigger] bindings[k],
                    project_id,
                    provider_id,
                    parent_thread,
                ) {
                let k = choose|k: int|
                    0 <= k < bindings.len() && is_parent_binding(
                        #[trigger] bindings[k],
                        project_id,
                        provider_id,
                        parent_thread,
                    ) && forall|j: int|
                        0 <= j < k ==> !is_parent_binding(
                            #[trigger] bindings[j],
                            project_id,
                            provider_id,
                            parent_thread,
                        );
                if turns_extend(pair_views(bindings[k].turns@), child) {
                    (bindings[k].lineage_id@, Relationship::Verified)
                } else {
                    (independent, Relationship::Unresolved)
                }
            } else {
                (independent, Relationship::Unresolved)
            },
        },
    }
}

/// Resolves a Thread's lineage (see `lineage_of`); `turns` are its
/// published Turns.
pub fn resolve_lineage(
    thread_id: &str,
    forked_from: Option<&str>,
    provider_id: &str,
    project_id: &str,
    existing: Option<&ThreadBinding>,
    bindings: &Vec<ThreadBinding>,
    turns: &Vec<PublishedTurn>,
) -> (resolved: (String, Relationship))
    ensures
        (resolved.0@, resolved.1) == lineage_of(
            thread_id@,
            match forked_from {
                Some(f) => Some(f@),
                None => None,
            },
            provider_id@,
            project_id@,
            match existing {
                Some(b) => Some(*b),
                None => None,
            },
            bindings@,
            published_keys(published_views(turns@)),
        ),
{
    if let Some(b) = existing {
        return (b.lineage_id.clone(), b.relationship);
    }
    let mut parts: Vec<String> = Vec::new();
    parts.push(String::from_str("lineage"));
    parts.push(String::from_str(project_id));
    parts.push(String::from_str(provider_id));
    parts.push(String::from_str(thread_id));
    proof {
        assert(texts(parts@) =~= seq!["lineage"@, project_id@, provider_id@, thread_id@]);
    }
    let independent = stable_uuid(&parts);
    let parent_thread = match forked_from {
        None => return (independent, Relationship::Independent),
        Some(f) => f,
    };
    let mut k: usize = 0;
    while k < bindings.len()
        invariant
            k <= bindings.len(),
            existing is None,
            forked_from == Some(parent_thread),
            independent@ == independent_lineage(project_id@, provider_id@, thread_id@),
            forall|j: int|
                0 <= j < k ==> !is_parent_binding(
                    #[trigger] bindings@[j],
                    project_id@,
                    provider_id@,
                    parent_thread@,
                ),
        decreases bindings.len() - k,
    {
        let b = &bindings[k];
        if str_equals(b.project_id.as_str(), project_id) && str_equals(
            b.provider_id.as_str(),
            provider_id,
        ) && str_equals(b.thread_id.as_str(), parent_thread) && b.history_full {
            proof {
                let c = choose|c: int|
                    0 <= c < bindings@.len() && is_parent_binding(
                        #[trigger] bindings@[c],
                        project_id@,
                        provider_id@,
                        parent_thread@,
                    ) && forall|j: int|
                        0 <= j < c ==> !is_parent_binding(
                            #[trigger] bindings@[j],
                            project_id@,
                            provider_id@,
                            parent_thread@,
                        );
                assert(is_parent_binding(bindings@[k as int], project_id@, provider_id@, parent_thread@));
                if c < k {
                } else if c > k {
                    assert(!is_parent_binding(bindings@[k as int], project_id@, provider_id@, parent_thread@));
                }
                assert(c == k);
            }
            if extends_parent(&b.turns, turns) {
                return (b.lineage_id.clone(), Relationship::Verified);
            }
            return (independent, Relationship::Unresolved);
        }
        k = k + 1;
    }
    (independent, Relationship::Unresolved)
}

/// The decimal digits of a natural number, as text.
pub open spec fn decimal_text(n: nat) -> Seq<char>
    decreases n,
{
    if n < 10 {
        seq![(48 + n) as char]
    } else {
        decimal_text(n / 10).push((48 + n % 10) as char)
    }
}

/// The decimal digits of `value`.
pub fn decimal_string(value: usize) -> (text: String)
    ensures
        text@ == decimal_text(value as nat),
{
    let mut digits: Vec<char> = Vec::new();
    let mut rest: usize = value;
    loop
        invariant_except_break
            decimal_text(value as nat) == decimal_text(rest as nat) + digits@,
        ensures
            decimal_text(value as nat) == digits@,
        decreases rest,
    {
        if rest < 10 {
            let c = ((48 + rest) as u8) as char;
            proof {
                assert(decimal_text(rest as nat) =~= seq![c]);
                assert(decimal_text(value as nat) =~= seq![c] + digits@);
            }
            digits.insert(0, c);
            break;
        }
        let c = ((48 + rest % 10) as u8) as char;
        proof {
            assert(decimal_text(rest as nat) == decimal_text((rest / 10) as nat).push(c));
            assert(decimal_text((rest / 10) as nat).push(c) + digits@ =~= decimal_text(
                (rest / 10) as nat,
            ) + seq![c].add(digits@));
        }
        digits.insert(0, c);
        rest = rest / 10;
    }
    let mut text = String::new();
    push_chars(&mut text, digits.as_slice());
    text
}

/// A provider payload as it is stored: sanitized from depth 0, or, when its
/// JSON text is longer than `MAX_PROVIDER_PAYLOAD_BYTES`, an object giving
/// that text's byte length, its lowercase hex SHA-256 and `truncated: true`.
pub open spec fn bounded_payload(v: JsonValue) -> JsonValue {
    let s = sanitized(v, 0);
    let bytes = json_text(s);
    if bytes.len() <= MAX_PROVIDER_PAYLOAD_BYTES {
        s
    } else {
        JsonValue::Object(
            seq![
                ("byte_length"@, JsonValue::Number(decimal_text(bytes.len()))),
                ("sha256"@, JsonValue::Str(hex_bytes(sha256(bytes)))),
                ("truncated"@, JsonValue::Bool(true)),
            ],
        )
    }
}

/// Bounds a provider payload for storage (see `bounded_payload`).
pub fn bound_provider_payload(value: &Json) -> (result: Json)
    ensures
        json_view(result) == bounded_payload(json_view(*value)),
{
    let sanitized_value = sanitize_provider_value(value, 0);
    let mut bytes: Vec<u8> = Vec::new();
    push_json(&mut bytes, &sanitized_value);
    proof {
        assert(bytes@ =~= json_text(json_view(sanitized_value)));
    }
    if bytes.len() <= MAX_PROVIDER_PAYLOAD_BYTES {
        return sanitized_value;
    }
    let digest = sha256_digest(bytes.as_slice());
    let mut hash = String::new();
    push_hex_bytes(&mut hash, digest.as_slice());
    let mut members: Vec<(String, Json)> = Vec::new();
    members.push((String::from_str("byte_length"), Json::Number(decimal_string(bytes.len()))));
    members.push((String::from_str("sha256"), Json::Str(hash)));
    members.push((String::from_str("truncated"), Json::Bool(true)));
    let result = Json::Object(members);
    proof {
        let a = json_view(result)->Object_0;
        let b = bounded_payload(json_view(*value))->Object_0;
        assert(members@[0].0@ == "byte_length"@);
        assert(json_view(members@[0].1) == JsonValue::Number(decimal_text(bytes.len() as nat)));
        assert(a[0] == b[0]);
        assert(members@[1].0@ == "sha256"@);
        assert(json_view(members@[1].1) == JsonValue::Str(hex_bytes(sha256(bytes@))));
        assert(a[1] == b[1]);
        assert(members@[2].0@ == "truncated"@);
        assert(json_view(members@[2].1) == JsonValue::Bool(true));
        assert(a[2] == b[2]);
        assert(a =~= b);
    }
    result
}

/// The error of a snapshot whose identities or native directory are unusable.
pub open spec fn snapshot_identity_error() -> (ErrorCode, Seq<char>, bool) {
    (
        ErrorCode::CodexHistoryReadFailed,
        "Codex Thread identity, binding, or native cwd is invalid"@,
        false,
    )
}

/// A snapshot can be imported under these identities: the Thread id, the
/// native session id, the provider, Project and Agent ids are not blank and
/// the native directory is absolute.
pub open spec fn snapshot_identity_ok(
    thread_id: Seq<char>,
    session_id: Seq<char>,
    cwd: Seq<char>,
    provider_id: Seq<char>,
    project_id: Seq<char>,
    agent_id: Seq<char>,
) -> bool {
    !is_blank(thread_id) && !is_blank(session_id) && !is_blank(provider_id) && !is_blank(project_id)
        && !is_blank(agent_id) && is_absolute(cwd)
}

/// Checks a snapshot's identities (see `snapshot_identity_ok`).
pub fn validate_snapshot_identity(
    thread_id: &str,
    session_id: &str,
    cwd: &str,
    provider_id: &str,
    project_id: &str,
    agent_id: &str,
) -> (result: Result<(), ControlError>)
    ensures
        match result {
            Ok(()) => snapshot_identity_ok(
                thread_id@,
                session_id@,
                cwd@,
                provider_id@,
                project_id@,
                agent_id@,
            ),
            Err(e) => !snapshot_identity_ok(
                thread_id@,
                session_id@,
                cwd@,
                provider_id@,
                project_id@,
                agent_id@,
            ) && is_error(
                e,
                snapshot_identity_error().0,
                snapshot_identity_error().1,
                snapshot_identity_error().2,
            ),
        },
{
    if is_blank_str(thread_id) || is_blank_str(session_id) || is_blank_str(provider_id)
        || is_blank_str(project_id) || is_blank_str(agent_id) || !path_is_absolute(cwd) {
        return Err(
            control_error(
                ErrorCode::CodexHistoryReadFailed,
                "Codex Thread identity, binding, or native cwd is invalid",
                false,
            ),
        );
    }
    Ok(())
}

/// Binding `b` is for this provider's Thread.
pub open spec fn binds_thread(b: ThreadBinding, provider_id: Seq<char>, thread_id: Seq<char>) -> bool {
    b.provider_id@ == provider_id && b.thread_id@ == thread_id
}

/// `k` is the first binding of this provider's Thread.
pub open spec fn first_binding(
    bindings: Seq<ThreadBinding>,
    provider_id: Seq<char>,
    thread_id: Seq<char>,
    k: int,
) -> bool {
    0 <= k < bindings.len() && binds_thread(bindings[k], provider_id, thread_id) && forall|j: int|
        0 <= j < k ==> !binds_thread(#[trigger] bindings[j], provider_id, thread_id)
}

/// The error of a Thread bound twice, or bound in another Project.
pub open spec fn binding_conflict_error() -> (ErrorCode, Seq<char>, bool) {
    (
        ErrorCode::CodexThreadBindingConflict,
        "Codex Thread is already bound to a different Session or Project"@,
        false,
    )
}

/// The Session already bound to a Thread, if any: it must be the only one
/// bound to it and belong to Project `project_id`.
pub open spec fn bound_session_of(
    bindings: Seq<ThreadBinding>,
    provider_id: Seq<char>,
    thread_id: Seq<char>,
    project_id: Seq<char>,
) -> Outcome<Option<int>> {
    if exists|k: int| first_binding(bindings, provider_id, thread_id, k) {
        let k = choose|k: int| first_binding(bindings, provider_id, thread_id, k);
        if (exists|j: int|
            k < j < bindings.len() && binds_thread(#[trigger] bindings[j], provider_id, thread_id))
            || bindings[k].project_id@ != project_id {
            Err(binding_conflict_error())
        } else {
            Ok(Some(k))
        }
    } else {
        Ok(None)
    }
}

/// Finds the Session bound to a Thread (see `bound_session_of`).
pub fn bound_session(
    bindings: &Vec<ThreadBinding>,
    provider_id: &str,
    thread_id: &str,
    project_id: &str,
) -> (result: Result<Option<usize>, ControlError>)
    ensures
        match bound_session_of(bindings@, provider_id@, thread_id@, project_id@) {
            Ok(found) => result matches Ok(r) && found == match r {
                Some(k) => Some(k as int),
                None => None,
            },
            Err(e) => result matches Err(err) && is_error(err, e.0, e.1, e.2),
        },
{
    let mut first: Option<usize> = None;
    let mut i: usize = 0;
    while i < bindings.len()
        invariant
            i <= bindings.len(),
            match first {
                None => forall|j: int|
                    0 <= j < i ==> !binds_thread(#[trigger] bindings@[j], provider_id@, thread_id@),
                Some(k) => k < i && first_binding(bindings@, provider_id@, thread_id@, k as int)
                    && forall|j: int|
                    k < j < i ==> !binds_thread(#[trigger] bindings@[j], provider_id@, thread_id@),
            },
        decreases bindings.len() - i,
    {
        let b = &bindings[i];
        if str_equals(b.provider_id.as_str(), provider_id) && str_equals(b.thread_id.as_str(), thread_id) {
            match first {
                None => {
                    first = Some(i);
                },
                Some(k) => {
                    proof {
                        let c = choose|c: int| first_binding(bindings@, provider_id@, thread_id@, c);
                        assert(c == k) by {
                            if c < k {
                                assert(!binds_thread(bindings@[c], provider_id@, thread_id@));
                            } else if c > k {
                                assert(!binds_thread(bindings@[k as int], provider_id@, thread_id@));
                            }
                        }
                        assert(binds_thread(bindings@[i as int], provider_id@, thread_id@));
                    }
                    return Err(
                        control_error(
                            ErrorCode::CodexThreadBindingConflict,
                            "Codex Thread is already bound to a different Session or Project",
                            false,
                        ),
                    );
                },
            }
        }
        i = i + 1;
    }
    match first {
        None => Ok(None),
        Some(k) => {
            proof {
                let c = choose|c: int| first_binding(bindings@, provider_id@, thread_id@, c);
                assert(c == k) by {
                    if c < k {
                        assert(!binds_thread(bindings@[c], provider_id@, thread_id@));
                    } else if c > k {
                        assert(!binds_thread(bindings@[k as int], provider_id@, thread_id@));
                    }
                }
            }
            if !str_equals(bindings[k].project_id.as_str(), project_id) {
                return Err(
                    control_error(
                        ErrorCode::CodexThreadBindingConflict,
                        "Codex Thread is already bound to a different Session or Project",
                        false,
                    ),
                );
            }
            Ok(Some(k))
        },
    }
}

/// The outcome of checking that `provider_id` names a registered Codex provider.
pub open spec fn codex_provider_check(providers: Seq<AgentProviderView>, provider_id: Seq<char>) -> Outcome<()> {
    if !(exists|k: int| first_provider(providers, provider_id, k)) {
        Err((ErrorCode::InvalidAgentConfiguration, "Codex Provider is not registered"@, false))
    } else {
        let k = choose|k: int| first_provider(providers, provider_id, k);
        if providers[k].provider.kind != AgentMode::Codex {
            Err((ErrorCode::InvalidAgentConfiguration, "history import requires a Codex Provider"@, false))
        } else {
            Ok(())
        }
    }
}

/// Checks that `provider_id` names a registered Codex provider (see
/// `codex_provider_check`).
pub fn validate_codex_provider(providers: &Vec<AgentProviderView>, provider_id: &str) -> (result: Result<(), ControlError>)
    ensures
        match codex_provider_check(providers@, provider_id@) {
            Ok(()) => result is Ok,
            Err(e) => result matches Err(err) && is_error(err, e.0, e.1, e.2),
        },
{
    let mut k: usize = 0;
    while k < providers.len()
        invariant
            k <= providers.len(),
            forall|j: int| 0 <= j < k ==> (#[trigger] providers@[j]).provider.id@ != provider_id@,
        decreases providers.len() - k,
    {
        if str_equals(providers[k].provider.id.as_str(), provider_id) {
            proof {
                assert(first_provider(providers@, provider_id@, k as int));
                let c = choose|c: int| first_provider(providers@, provider_id@, c);
                assert(c == k) by {
                    if c < k {
                        assert(providers@[c].provider.id@ != provider_id@);
                    } else if c > k {
                        assert(providers@[k as int].provider.id@ != provider_id@);
                    }
                }
            }
            if providers[k].provider.kind != AgentMode::Codex {
                return Err(
                    control_error(
                        ErrorCode::InvalidAgentConfiguration,
                        "history import requires a Codex Provider",
                        false,
                    ),
                );
            }
            return Ok(());
        }
        k = k + 1;
    }
    proof {
        if exists|c: int| first_provider(providers@, provider_id@, c) {
            let c = choose|c: int| first_provider(providers@, provider_id@, c);
            assert(providers@[c].provider.id@ != provider_id@);
        }
    }
    Err(control_error(ErrorCode::InvalidAgentConfiguration, "Codex Provider is not registered", false))
}

/// A directory with its canonical path components, as the host resolved it.
pub type ResolvedDir = (String, Vec<String>);

/// The views of resolved directories: owner id and components.
pub open spec fn resolved_views(dirs: Seq<ResolvedDir>) -> Seq<(Seq<char>, Seq<Seq<char>>)> {
    dirs.map_values(|d: ResolvedDir| (d.0@, texts(d.1@)))
}

/// Project `id` owns the native directory `cwd`: a Project with that id has
/// its root at or above `cwd`, or a Session of it works in `cwd` itself.
pub open spec fn owns_cwd(
    id: Seq<char>,
    cwd: Seq<Seq<char>>,
    roots: Seq<(Seq<char>, Seq<Seq<char>>)>,
    session_dirs: Seq<(Seq<char>, Seq<Seq<char>>)>,
) -> bool {
    (exists|k: int| 0 <= k < roots.len() && (#[trigger] roots[k]).0 == id && starts_with(cwd, roots[k].1))
        || (exists|k: int|
        0 <= k < session_dirs.len() && (#[trigger] session_dirs[k]).0 == id && session_dirs[k].1 == cwd)
}

/// The Projects that own a native directory, each once (see `owns_cwd`).
/// `roots` pairs each Project id with its canonical root and `session_dirs`
/// each Session's Project id with its canonical workdir; directories that
/// could not be resolved are left out by the caller.
pub fn owning_projects(
    cwd: &Vec<String>,
    roots: &Vec<ResolvedDir>,
    session_dirs: &Vec<ResolvedDir>,
) -> (owners: Vec<String>)
    ensures
        texts(owners@).no_duplicates(),
        forall|id: Seq<char>|
            texts(owners@).contains(id) <==> owns_cwd(
                id,
                texts(cwd@),
                resolved_views(roots@),
                resolved_views(session_dirs@),
            ),
{
    let ghost c = texts(cwd@);
    let ghost r = resolved_views(roots@);
    let ghost d = resolved_views(session_dirs@);
    let mut owners: Vec<String> = Vec::new();
    let mut i: usize = 0;
    while i < roots.len()
        invariant
            i <= roots.len(),
            c == texts(cwd@),
            r == resolved_views(roots@),
            texts(owners@).no_duplicates(),
            forall|id: Seq<char>|
                texts(owners@).contains(id) <==> exists|k: int|
                    0 <= k < i && (#[trigger] r[k]).0 == id && starts_with(c, r[k].1),
        decreases roots.len() - i,
    {
        proof {
            assert(r[i as int] == (roots@[i as int].0@, texts(roots@[i as int].1@)));
        }
        if parts_start_with(cwd, &roots[i].1) && !text_list_contains(&owners, roots[i].0.as_str()) {
            let ghost before = texts(owners@);
            owners.push(roots[i].0.clone());
            proof {
                assert(texts(owners@) =~= before.push(r[i as int].0));
                assert forall|id: Seq<char>| texts(owners@).contains(id) <==> exists|k: int|
                    0 <= k < i + 1 && (#[trigger] r[k]).0 == id && starts_with(c, r[k].1) by {
                    if texts(owners@).contains(id) && id != r[i as int].0 {
                        let j = choose|j: int| 0 <= j < texts(owners@).len() && texts(owners@)[j] == id;
                        assert(before[j] == id);
                    }
                    if id == r[i as int].0 {
                        assert(texts(owners@)[before.len() as int] == id);
                    }
                    if before.contains(id) {
                        let j = choose|j: int| 0 <= j < before.len() && before[j] == id;
                        assert(texts(owners@)[j] == id);
                    }
                }
            }
        } else {
            proof {
                assert forall|id: Seq<char>| texts(owners@).contains(id) <==> exists|k: int|
                    0 <= k < i + 1 && (#[trigger] r[k]).0 == id && starts_with(c, r[k].1) by {
                    if id == r[i as int].0 && starts_with(c, r[i as int].1) {
                        assert(texts(owners@).contains(id));
                    }
                }
            }
        }
        i = i + 1;
    }
    let mut j: usize = 0;
    while j < session_dirs.len()
        invariant
            j <= session_dirs.len(),
            c == texts(cwd@),
            r == resolved_views(roots@),
            d == resolved_views(session_dirs@),
            texts(owners@).no_duplicates(),
            forall|id: Seq<char>|
                texts(owners@).contains(id) <==> (exists|k: int|
                    0 <= k < r.len() && (#[trigger] r[k]).0 == id && starts_with(c, r[k].1)) || (
                exists|k: int| 0 <= k < j && (#[trigger] d[k]).0 == id && d[k].1 == c),
        decreases session_dirs.len() - j,
    {
        proof {
            assert(d[j as int] == (session_dirs@[j as int].0@, texts(session_dirs@[j as int].1@)));
        }
        if texts_equal(&session_dirs[j].1, cwd) && !text_list_contains(&owners, session_dirs[j].0.as_str()) {
            let ghost before = texts(owners@);
            owners.push(session_dirs[j].0.clone());
            proof {
                assert(texts(owners@) =~= before.push(d[j as int].0));
                assert forall|id: Seq<char>| texts(owners@).contains(id) <==> (exists|k: int|
                    0 <= k < r.len() && (#[trigger] r[k]).0 == id && starts_with(c, r[k].1)) || (
                exists|k: int| 0 <= k < j + 1 && (#[trigger] d[k]).0 == id && d[k].1 == c) by {
                    if texts(owners@).contains(id) && id != d[j as int].0 {
                        let q = choose|q: int| 0 <= q < texts(owners@).len() && texts(owners@)[q] == id;
                        assert(before[q] == id);
                    }
                    if id == d[j as int].0 {
                        assert(texts(owners@)[before.len() as int] == id);
                    }
                    if before.contains(id) {
                        let q = choose|q: int| 0 <= q < before.len() && before[q] == id;
                        assert(texts(owners@)[q] == id);
                    }
                }
            }
        } else {
            proof {
                assert forall|id: Seq<char>| texts(owners@).contains(id) <==> (exists|k: int|
                    0 <= k < r.len() && (#[trigger] r[k]).0 == id && starts_with(c, r[k].1)) || (
                exists|k: int| 0 <= k < j + 1 && (#[trigger] d[k]).0 == id && d[k].1 == c) by {
                    if id == d[j as int].0 && d[j as int].1 == c {
                        assert(texts(owners@).contains(id));
                    }
                }
            }
        }
        j = j + 1;
    }
    owners
}

/// The outcome of checking that a Thread may be imported into Project
/// `project_id` for Agent `agent_id` of provider `provider_id`: the provider
/// must be a registered Codex provider and the Agent an enabled one of it; a
/// Thread already bound must be bound to this Project and Agent; otherwise
/// exactly one Project, this one, must own the Thread's directory
/// (`owners`, see `owning_projects`).
pub open spec fn import_binding_check(
    providers: Seq<AgentProviderView>,
    agents: Seq<AgentRecord>,
    bindings: Seq<ThreadBinding>,
    owners: Seq<Seq<char>>,
    thread_id: Seq<char>,
    provider_id: Seq<char>,
    project_id: Seq<char>,
    agent_id: Seq<char>,
) -> Outcome<()> {
    match codex_provider_check(providers, provider_id) {
        Err(e) => Err(e),
        Ok(()) => if !has_enabled_agent(agents, agent_id) {
            Err((ErrorCode::AgentNotFound, "enabled Agent not found"@, false))
        } else if agents[choose|c: int| first_enabled_agent(agents, agent_id, c)].config.provider_id@
            != provider_id {
            Err(
                (
                    ErrorCode::CodexThreadBindingConflict,
                    "Codex Session Agent must use the selected Provider"@,
                    false,
                ),
            )
        } else if exists|k: int| first_binding(bindings, provider_id, thread_id, k) {
            let b = bindings[choose|k: int| first_binding(bindings, provider_id, thread_id, k)];
            if b.project_id@ != project_id || b.agent_id@ != agent_id {
                Err(
                    (
                        ErrorCode::CodexThreadBindingConflict,
                        "Codex Thread is already bound to another Project or Agent"@,
                        false,
                    ),
                )
            } else {
                Ok(())
            }
        } else if owners.len() == 0 {
            Err(
                (
                    ErrorCode::CodexThreadProjectUnbound,
                    "Codex Thread cwd does not belong to a registered Project"@,
                    false,
                ),
            )
        } else if exists|i: int| 0 <= i < owners.len() && #[trigger] owners[i] != owners[0] {
            Err(
                (
                    ErrorCode::CodexThreadProjectAmbiguous,
                    "Codex Thread cwd belongs to more than one registered Project"@,
                    false,
                ),
            )
        } else if !owners.contains(project_id) {
            Err(
                (
                    ErrorCode::CodexThreadBindingConflict,
                    "selected Project does not own the Codex Thread cwd"@,
                    false,
                ),
            )
        } else {
            Ok(())
        },
    }
}

/// The provider and Agent checks of `import_binding_check` pass.
pub open spec fn import_agent_ok(
    providers: Seq<AgentProviderView>,
    agents: Seq<AgentRecord>,
    provider_id: Seq<char>,
    agent_id: Seq<char>,
) -> bool {
    &&& codex_provider_check(providers, provider_id) is Ok
    &&& has_enabled_agent(agents, agent_id)
    &&& agents[choose|c: int| first_enabled_agent(agents, agent_id, c)].config.provider_id@
        == provider_id
}

/// Checks that a Thread may be imported (see `import_binding_check`).
pub fn validate_import_binding(
    providers: &Vec<AgentProviderView>,
    agents: &Vec<AgentRecord>,
    bindings: &Vec<ThreadBinding>,
    owners: &Vec<String>,
    thread_id: &str,
    provider_id: &str,
    project_id: &str,
    agent_id: &str,
) -> (result: Result<(), ControlError>)
    ensures
        match import_binding_check(
            providers@,
            agents@,
            bindings@,
            texts(owners@),
            thread_id@,
            provider_id@,
            project_id@,
            agent_id@,
        ) {
            Ok(()) => result is Ok,
            Err(e) => result matches Err(err) && is_error(err, e.0, e.1, e.2),
        },
{
    validate_codex_provider(providers, provider_id)?;
    let a = match require_agent(agents, agent_id) {
        Ok(a) => a,
        Err(_) => {
            return Err(control_error(ErrorCode::AgentNotFound, "enabled Agent not found", false));
        },
    };
    if !str_equals(agents[a].config.provider_id.as_str(), provider_id) {
        return Err(
            control_error(
                ErrorCode::CodexThreadBindingConflict,
                "Codex Session Agent must use the selected Provider",
                false,
            ),
        );
    }
    let mut k: usize = 0;
    proof {
        assert(has_enabled_agent(agents@, agent_id@));
        assert(import_agent_ok(providers@, agents@, provider_id@, agent_id@));
    }
    while k < bindings.len()
        invariant
            k <= bindings.len(),
            import_agent_ok(providers@, agents@, provider_id@, agent_id@),
            forall|j: int| 0 <= j < k ==> !binds_thread(#[trigger] bindings@[j], provider_id@, thread_id@),
        decreases bindings.len() - k,
    {
        let b = &bindings[k];
        if str_equals(b.provider_id.as_str(), provider_id) && str_equals(b.thread_id.as_str(), thread_id) {
            proof {
                assert(first_binding(bindings@, provider_id@, thread_id@, k as int));
                let c = choose|c: int| first_binding(bindings@, provider_id@, thread_id@, c);
                assert(c == k) by {
                    if c < k {
                        assert(!binds_thread(bindings@[c], provider_id@, thread_id@));
                    } else if c > k {
                        assert(!binds_thread(bindings@[k as int], provider_id@, thread_id@));
                    }
                }
            }
            if !str_equals(b.project_id.as_str(), project_id) || !str_equals(b.agent_id.as_str(), agent_id) {
                return Err(
                    control_error(
                        ErrorCode::CodexThreadBindingConflict,
                        "Codex Thread is already bound to another Project or Agent",
                        false,
                    ),
                );
            }
            return Ok(());
        }
        k = k + 1;
    }
    proof {
        if exists|c: int| first_binding(bindings@, provider_id@, thread_id@, c) {
            let c = choose|c: int| first_binding(bindings@, provider_id@, thread_id@, c);
            assert(!binds_thread(bindings@[c], provider_id@, thread_id@));
        }
    }
    if owners.len() == 0 {
        return Err(
            control_error(
                ErrorCode::CodexThreadProjectUnbound,
                "Codex Thread cwd does not belong to a registered Project",
                false,
            ),
        );
    }
    let ghost names = texts(owners@);
    let mut i: usize = 1;
    while i < owners.len()
        invariant
            1 <= i <= owners.len(),
            names == texts(owners@),
            import_agent_ok(providers@, agents@, provider_id@, agent_id@),
            !exists|c: int| first_binding(bindings@, provider_id@, thread_id@, c),
            forall|j: int| 0 <= j < i ==> #[trigger] names[j] == names[0],
        decreases owners.len() - i,
    {
        if !str_equals(owners[i].as_str(), owners[0].as_str()) {
            proof {
                assert(names[i as int] != names[0]);
            }
            return Err(
                control_error(
                    ErrorCode::CodexThreadProjectAmbiguous,
                    "Codex Thread cwd belongs to more than one registered Project",
                    false,
                ),
            );
        }
        i = i + 1;
    }
    if !text_list_contains(owners, project_id) {
        return Err(
            control_error(
                ErrorCode::CodexThreadBindingConflict,
                "selected Project does not own the Codex Thread cwd",
                false,
            ),
        );
    }
    Ok(())
}

/// A failure of the history source, as the caller reports it: failures that
/// describe the history itself keep their own code; any other is reported
/// under `code`. The message and retry flag are kept either way.
pub open spec fn history_failure_code(code: ErrorCode, failure_code: ErrorCode) -> ErrorCode {
    match failure_code {
        ErrorCode::CodexHistorySchemaUnsupported
        | ErrorCode::CodexHistoryIncomplete
        | ErrorCode::CodexThreadIdConflict
        | ErrorCode::CodexTurnIdConflict
        | ErrorCode::CodexHistoryCursorRepeated => failure_code,
        _ => code,
    }
}

/// Reports a failure of the history source (see `history_failure_code`).
pub fn history_api_error(code: ErrorCode, failure: DomainError) -> (e: ControlError)
    ensures
        e.code == history_failure_code(code, failure.code),
        e.message == failure.message,
        e.retryable == failure.retryable,
{
    match failure.code {
        ErrorCode::CodexHistorySchemaUnsupported
        | ErrorCode::CodexHistoryIncomplete
        | ErrorCode::CodexThreadIdConflict
        | ErrorCode::CodexTurnIdConflict
        | ErrorCode::CodexHistoryCursorRepeated => domain_error(failure),
        _ => ControlError { code, message: failure.message, retryable: failure.retryable },
    }
}

/// `x` saturated to the range of `i64`.
pub open spec fn clamp_i64(x: int) -> i64 {
    if x > i64::MAX {
        i64::MAX
    } else if x < i64::MIN {
        i64::MIN
    } else {
        x as i64
    }
}

/// Seconds as milliseconds, saturating (`seconds.saturating_mul(1_000)`).
pub open spec fn millis_of(seconds: i64) -> i64 {
    clamp_i64(seconds * 1000)
}

fn millis(seconds: i64) -> (ms: i64)
    ensures
        ms == millis_of(seconds),
{
    if seconds > i64::MAX / 1000 {
        i64::MAX
    } else if seconds < i64::MIN / 1000 {
        i64::MIN
    } else {
        seconds * 1000
    }
}

/// The creation time of the Message of segment `index` of a Turn observed at
/// `seconds`: its milliseconds plus the index, saturating.
pub open spec fn segment_time(seconds: i64, index: nat) -> i64 {
    clamp_i64(millis_of(seconds) + if index > i64::MAX {
        i64::MAX as int
    } else {
        index as int
    })
}

fn segment_time_exec(seconds: i64, index: usize) -> (t: i64)
    ensures
        t == segment_time(seconds, index as nat),
{
    let base = millis(seconds);
    let wide = index as u64;
    let offset: i64 = if wide > 9223372036854775807u64 {
        i64::MAX
    } else {
        wide as i64
    };
    if base > 0 && offset > i64::MAX - base {
        i64::MAX
    } else {
        base + offset
    }
}

/// The role of a projected Message.
#[derive(Clone, Copy, Debug, PartialEq, Eq, Structural)]
pub enum PlannedRole {
    /// The synthetic root of the Thread's lineage.
    Root,
    User,
    Assistant,
}

/// A Message the projection of a Thread creates: its stable id, its parent,
/// its role, the Turn and segment it comes from and when it was written.
#[derive(Debug)]
pub struct PlannedMessage {
    pub id: String,
    pub parent_id: Option<String>,
    pub role: PlannedRole,
    /// The position of the Turn among the published Turns (0 for the root).
    pub turn: usize,
    pub segment_index: usize,
    /// The items of the Turn the Message holds.
    pub segment: Segment,
    pub created_at: i64,
}

/// A planned Message as the projection rules read it.
pub struct PlanView {
    pub id: Seq<char>,
    pub parent_id: Option<Seq<char>>,
    pub role: PlannedRole,
    pub turn: int,
    pub segment_index: int,
    pub segment: (bool, int, int),
    pub created_at: i64,
}

/// The view of a planned Message.
pub open spec fn plan_view(m: PlannedMessage) -> PlanView {
    PlanView {
        id: m.id@,
        parent_id: match m.parent_id {
            Some(p) => Some(p@),
            None => None,
        },
        role: m.role,
        turn: m.turn as int,
        segment_index: m.segment_index as int,
        segment: segment_view(m.segment),
        created_at: m.created_at,
    }
}

/// The views of planned Messages.
pub open spec fn plan_views(plan: Seq<PlannedMessage>) -> Seq<PlanView> {
    plan.map_values(|m: PlannedMessage| plan_view(m))
}

/// The id of the synthetic root of a lineage in a Project.
pub open spec fn root_message_id(project_id: Seq<char>, provider_id: Seq<char>, lineage_id: Seq<char>) -> Seq<char> {
    stable_id(seq!["root"@, project_id, provider_id, lineage_id])
}

/// The id of the Message of segment `index` of a Turn under `parent`.
pub open spec fn segment_message_id(
    project_id: Seq<char>,
    provider_id: Seq<char>,
    lineage_id: Seq<char>,
    turn: PublishedView,
    index: nat,
    parent: Seq<char>,
) -> Seq<char> {
    stable_id(
        seq![
            "message"@,
            project_id,
            provider_id,
            lineage_id,
            turn.turn.id,
            turn.content_hash,
            decimal_text(index),
            parent,
        ],
    )
}

/// When a Turn was observed: its completion, else its start, else the
/// Thread's last update, in seconds.
pub open spec fn observed_at(turn: PublishedView, updated_at: i64) -> i64 {
    match turn.turn.completed_at {
        Some(t) => t,
        None => match turn.turn.started_at {
            Some(t) => t,
            None => updated_at,
        },
    }
}

/// The Messages of the first `n` segments of Turn number `t`, chained from
/// `parent`.
pub open spec fn turn_plan(
    project_id: Seq<char>,
    provider_id: Seq<char>,
    lineage_id: Seq<char>,
    updated_at: i64,
    turn: PublishedView,
    t: int,
    parent: Seq<char>,
    n: int,
) -> Seq<PlanView>
    decreases n,
{
    if n <= 0 {
        Seq::empty()
    } else {
        let before = turn_plan(project_id, provider_id, lineage_id, updated_at, turn, t, parent, n - 1);
        let p = if n == 1 {
            parent
        } else {
            before.last().id
        };
        let seg = segments_of(turn.items)[n - 1];
        before.push(
            PlanView {
                id: segment_message_id(project_id, provider_id, lineage_id, turn, (n - 1) as nat, p),
                parent_id: Some(p),
                role: if seg.0 {
                    PlannedRole::User
                } else {
                    PlannedRole::Assistant
                },
                turn: t,
                segment_index: n - 1,
                segment: seg,
                created_at: segment_time(observed_at(turn, updated_at), (n - 1) as nat),
            },
        )
    }
}

/// The Messages that project the first `t` published Turns: the lineage's
/// root, created at the Thread's creation, then each Turn's segments in
/// order, each the child of the one before.
pub open spec fn message_plan(
    project_id: Seq<char>,
    provider_id: Seq<char>,
    lineage_id: Seq<char>,
    created_at: i64,
    updated_at: i64,
    turns: Seq<PublishedView>,
    t: int,
) -> Seq<PlanView>
    decreases t,
{
    if t <= 0 {
        seq![
            PlanView {
                id: root_message_id(project_id, provider_id, lineage_id),
                parent_id: None,
                role: PlannedRole::Root,
                turn: 0,
                segment_index: 0,
                segment: (false, 0, 0),
                created_at: millis_of(created_at),
            },
        ]
    } else {
        let before = message_plan(project_id, provider_id, lineage_id, created_at, updated_at, turns, t - 1);
        before + turn_plan(
            project_id,
            provider_id,
            lineage_id,
            updated_at,
            turns[t - 1],
            t - 1,
            before.last().id,
            segments_of(turns[t - 1].items).len() as int,
        )
    }
}

proof fn lemma_turn_plan_len(
    project_id: Seq<char>,
    provider_id: Seq<char>,
    lineage_id: Seq<char>,
    updated_at: i64,
    turn: PublishedView,
    t: int,
    parent: Seq<char>,
    n: int,
)
    requires
        n >= 0,
    ensures
        turn_plan(project_id, provider_id, lineage_id, updated_at, turn, t, parent, n).len() == n,
    decreases n,
{
    if n > 0 {
        lemma_turn_plan_len(project_id, provider_id, lineage_id, updated_at, turn, t, parent, n - 1);
    }
}

proof fn lemma_segments_nonempty(items: Seq<JsonValue>)
    ensures
        segments_of(items).len() > 0,
{
}

proof fn lemma_plan_nonempty(
    project_id: Seq<char>,
    provider_id: Seq<char>,
    lineage_id: Seq<char>,
    created_at: i64,
    updated_at: i64,
    turns: Seq<PublishedView>,
    t: int,
)
    ensures
        message_plan(project_id, provider_id, lineage_id, created_at, updated_at, turns, t).len() > 0,
    decreases t,
{
    if t > 0 {
        lemma_plan_nonempty(project_id, provider_id, lineage_id, created_at, updated_at, turns, t - 1);
    }
}

fn stable_id_of(parts: Vec<String>) -> (id: String)
    ensures
        id@ == stable_id(texts(parts@)),
{
    stable_uuid(&parts)
}

/// Plans the Messages that project a Thread's published Turns (see
/// `message_plan`); `created_at` and `updated_at` are the Thread's times in
/// seconds.
pub fn plan_messages(
    project_id: &str,
    provider_id: &str,
    lineage_id: &str,
    created_at: i64,
    updated_at: i64,
    turns: &Vec<PublishedTurn>,
) -> (plan: Vec<PlannedMessage>)
    ensures
        plan_views(plan@) == message_plan(
            project_id@,
            provider_id@,
            lineage_id@,
            created_at,
            updated_at,
            published_views(turns@),
            turns.len() as int,
        ),
{
    let ghost views = published_views(turns@);
    let mut parts: Vec<String> = Vec::new();
    parts.push(String::from_str("root"));
    parts.push(String::from_str(project_id));
    parts.push(String::from_str(provider_id));
    parts.push(String::from_str(lineage_id));
    proof {
        assert(texts(parts@) =~= seq!["root"@, project_id@, provider_id@, lineage_id@]);
    }
    let root_id = stable_id_of(parts);
    let mut plan: Vec<PlannedMessage> = Vec::new();
    plan.push(
        PlannedMessage {
            id: root_id.clone(),
            parent_id: None,
            role: PlannedRole::Root,
            turn: 0,
            segment_index: 0,
            segment: Segment { user: false, start: 0, end: 0 },
            created_at: millis(created_at),
        },
    );
    let mut parent = root_id;
    proof {
        assert(plan_views(plan@) =~= message_plan(
            project_id@,
            provider_id@,
            lineage_id@,
            created_at,
            updated_at,
            views,
            0,
        ));
    }
    let mut t: usize = 0;
    while t < turns.len()
        invariant
            t <= turns.len(),
            views == published_views(turns@),
            plan_views(plan@) == message_plan(
                project_id@,
                provider_id@,
                lineage_id@,
                created_at,
                updated_at,
                views,
                t as int,
            ),
            plan@.len() > 0,
            parent@ == plan_views(plan@).last().id,
        decreases turns.len() - t,
    {
        let turn = &turns[t];
        let ghost tv = views[t as int];
        let ghost start = plan_views(plan@);
        let ghost first_parent = parent@;
        let segments = turn_segments(&turn.items);
        proof {
            assert(tv == published_view(*turn));
            lemma_segments_nonempty(tv.items);
        }
        let observed: i64 = match turn.completed_at {
            Some(c) => c,
            None => match turn.started_at {
                Some(s) => s,
                None => updated_at,
            },
        };
        let mut k: usize = 0;
        while k < segments.len()
            invariant
                k <= segments.len(),
                segment_views(segments@) == segments_of(tv.items),
                tv == published_view(*turn),
                observed == observed_at(tv, updated_at),
                plan_views(plan@) == start + turn_plan(
                    project_id@,
                    provider_id@,
                    lineage_id@,
                    updated_at,
                    tv,
                    t as int,
                    first_parent,
                    k as int,
                ),
                plan@.len() > 0,
                k == 0 ==> parent@ == first_parent,
                k > 0 ==> parent@ == plan_views(plan@).last().id,
            decreases segments.len() - k,
        {
            let seg = segments[k];
            let mut parts: Vec<String> = Vec::new();
            parts.push(String::from_str("message"));
            parts.push(String::from_str(project_id));
            parts.push(String::from_str(provider_id));
            parts.push(String::from_str(lineage_id));
            parts.push(turn.id.clone());
            parts.push(turn.content_hash.clone());
            parts.push(decimal_string(k));
            parts.push(parent.clone());
            let ghost before_plan = plan_views(plan@);
            let ghost prev = turn_plan(
                project_id@,
                provider_id@,
                lineage_id@,
                updated_at,
                tv,
                t as int,
                first_parent,
                k as int,
            );
            proof {
                assert(texts(parts@) =~= seq![
                    "message"@,
                    project_id@,
                    provider_id@,
                    lineage_id@,
                    tv.turn.id,
                    tv.content_hash,
                    decimal_text(k as nat),
                    parent@,
                ]);
                lemma_turn_plan_len(
                    project_id@,
                    provider_id@,
                    lineage_id@,
                    updated_at,
                    tv,
                    t as int,
                    first_parent,
                    k as int,
                );
                if k > 0 {
                    assert(prev.len() == k);
                    assert(before_plan.last() == prev.last());
                }
                assert(segment_view(seg) == segments_of(tv.items)[k as int]);
            }
            let id = stable_id_of(parts);
            let message = PlannedMessage {
                id: id.clone(),
                parent_id: Some(parent.clone()),
                role: if seg.user {
                    PlannedRole::User
                } else {
                    PlannedRole::Assistant
                },
                turn: t,
                segment_index: k,
                segment: seg,
                created_at: segment_time_exec(observed, k),
            };
            plan.push(message);
            parent = id;
            proof {
                assert(plan_views(plan@) =~= before_plan.push(plan_view(message)));
                assert(plan_views(plan@) =~= start + turn_plan(
                    project_id@,
                    provider_id@,
                    lineage_id@,
                    updated_at,
                    tv,
                    t as int,
                    first_parent,
                    k + 1,
                ));
            }
            k = k + 1;
        }
        proof {
            lemma_plan_nonempty(project_id@, provider_id@, lineage_id@, created_at, updated_at, views, t as int);
            assert(plan_views(plan@) =~= message_plan(
                project_id@,
                provider_id@,
                lineage_id@,
                created_at,
                updated_at,
                views,
                t + 1,
            ));
        }
        t = t + 1;
    }
    plan
}

/// The member named `key` of an object value, if any.
pub open spec fn member_of(v: JsonValue, key: Seq<char>) -> Option<JsonValue> {
    match v {
        JsonValue::Object(members) => member(members, key),
        _ => None,
    }
}

/// The text of a string member named `key`, if it is one.
pub open spec fn str_member(v: JsonValue, key: Seq<char>) -> Option<Seq<char>> {
    match member_of(v, key) {
        Some(JsonValue::Str(s)) => Some(s),
        _ => None,
    }
}

/// The position among an object's members of the first one named `key`.
pub fn member_index(v: &Json, key: &str) -> (found: Option<usize>)
    ensures
        match found {
            Some(k) => v is Object && k < v->Object_0.len() && member_of(json_view(*v), key@) == Some(
                json_view(v->Object_0@[k as int].1),
            ),
            None => member_of(json_view(*v), key@) is None,
        },
{
    match v {
        Json::Object(members) => {
            let ghost view = json_view(*v)->Object_0;
            proof {
                assert(view.skip(0) =~= view);
            }
            let mut i: usize = 0;
            while i < members.len()
                invariant
                    i <= members.len(),
                    view == json_view(Json::Object(*members))->Object_0,
                    *v == Json::Object(*members),
                    member(view, key@) == member(view.skip(i as int), key@),
                decreases members.len() - i,
            {
                proof {
                    assert(view.skip(i as int).drop_first() =~= view.skip(i + 1));
                    assert(view.skip(i as int)[0] == view[i as int]);
                    assert(view[i as int] == (members@[i as int].0@, json_view(members@[i as int].1)));
                }
                if str_equals(members[i].0.as_str(), key) {
                    proof {
                        assert(member(view.skip(i as int), key@) == Some(view[i as int].1));
                    }
                    return Some(i);
                }
                i = i + 1;
            }
            proof {
                assert(view.skip(i as int).len() == 0);
            }
            None
        },
        _ => None,
    }
}

/// The media type of a user input's text elements.
pub open spec fn text_elements_media() -> Seq<char> {
    "application/vnd.openai.codex.text-elements+json"@
}

/// The media type of a user input kept whole.
pub open spec fn user_input_media() -> Seq<char> {
    "application/vnd.openai.codex.user-input+json"@
}

/// The media type of a Turn without items.
pub open spec fn empty_turn_media() -> Seq<char> {
    "application/vnd.ait.codex.empty-turn+json"@
}

/// The media type of a lineage's synthetic root.
pub open spec fn synthetic_root_media() -> Seq<char> {
    "application/vnd.ait.codex.synthetic-root+json"@
}

/// One part of a projected Message.
#[derive(Debug)]
pub enum SubMessage {
    Text { text: String },
    /// A JSON value stored with its media type.
    StructuredData { media_type: String, value: Json },
    /// An item of the provider's Turn, with its position in the Turn.
    ProviderItem {
        provider_kind: String,
        external_item_id: String,
        item_type: String,
        ordinal: u32,
        payload: Json,
        payload_schema_version: u32,
    },
}

/// The mathematical form of a part.
pub enum SubView {
    Text(Seq<char>),
    Data(Seq<char>, JsonValue),
    Item(Seq<char>, Seq<char>, Seq<char>, u32, JsonValue, u32),
}

/// The view of a part.
pub open spec fn sub_view(m: SubMessage) -> SubView {
    match m {
        SubMessage::Text { text } => SubView::Text(text@),
        SubMessage::StructuredData { media_type, value } => SubView::Data(media_type@, json_view(value)),
        SubMessage::ProviderItem {
            provider_kind,
            external_item_id,
            item_type,
            ordinal,
            payload,
            payload_schema_version,
        } => SubView::Item(
            provider_kind@,
            external_item_id@,
            item_type@,
            ordinal,
            json_view(payload),
            payload_schema_version,
        ),
    }
}

/// The views of parts.
pub open spec fn sub_views(parts: Seq<SubMessage>) -> Seq<SubView> {
    parts.map_values(|m: SubMessage| sub_view(m))
}

/// The parts of one user input: a text input gives its text, followed by
/// its text elements when it has them; any other input is kept whole.
pub open spec fn input_parts(input: JsonValue) -> Seq<SubView> {
    if text_member(input, "type"@) == "text"@ && str_member(input, "text"@) is Some {
        let text = seq![SubView::Text(str_member(input, "text"@)->0)];
        match member_of(input, "text_elements"@) {
            Some(elements) => text.push(SubView::Data(text_elements_media(), elements)),
            None => text,
        }
    } else {
        seq![SubView::Data(user_input_media(), input)]
    }
}

/// The inputs of a user item: its `content` array, or none.
pub open spec fn content_inputs(item: JsonValue) -> Seq<JsonValue> {
    match member_of(item, "content"@) {
        Some(JsonValue::Array(inputs)) => inputs,
        _ => Seq::empty(),
    }
}

/// The parts of the first `n` inputs.
pub open spec fn inputs_parts(inputs: Seq<JsonValue>, n: int) -> Seq<SubView>
    decreases n,
{
    if n <= 0 {
        Seq::empty()
    } else {
        inputs_parts(inputs, n - 1) + input_parts(inputs[n - 1])
    }
}

/// The parts of a user Message holding items `start..end` of a Turn.
pub open spec fn user_parts(items: Seq<JsonValue>, start: int, end: int) -> Seq<SubView>
    decreases end - start,
{
    if end <= start {
        Seq::empty()
    } else {
        let inputs = content_inputs(items[end - 1]);
        user_parts(items, start, end - 1) + inputs_parts(inputs, inputs.len() as int)
    }
}

/// The error of a provider item without an identity, a type, or a
/// representable position.
pub open spec fn provider_item_error(message: Seq<char>) -> (ErrorCode, Seq<char>, bool) {
    (ErrorCode::CodexHistoryReadFailed, message, false)
}

/// The part of the provider item at position `ordinal`.
pub open spec fn item_part(item: JsonValue, ordinal: int) -> Outcome<SubView> {
    if str_member(item, "id"@) is None {
        Err(provider_item_error("Codex provider item has no identity"@))
    } else if str_member(item, "type"@) is None {
        Err(provider_item_error("Codex provider item has no type"@))
    } else if ordinal > u32::MAX {
        Err(provider_item_error("Codex Turn has too many items"@))
    } else {
        Ok(
            SubView::Item(
                "codex"@,
                str_member(item, "id"@)->0,
                str_member(item, "type"@)->0,
                ordinal as u32,
                bounded_payload(item),
                PROJECTION_VERSION,
            ),
        )
    }
}

/// The parts of an assistant Message holding items `start..end`: each item
/// as a provider item, or the first error.
pub open spec fn provider_parts(items: Seq<JsonValue>, start: int, end: int) -> Outcome<Seq<SubView>>
    decreases end - start,
{
    if end <= start {
        Ok(Seq::empty())
    } else {
        match provider_parts(items, start, end - 1) {
            Err(e) => Err(e),
            Ok(parts) => match item_part(items[end - 1], end - 1) {
                Err(e) => Err(e),
                Ok(part) => Ok(parts.push(part)),
            },
        }
    }
}

/// The record of a Turn without items: its error (`null` when none) and status.
pub open spec fn empty_turn_value(turn: PublishedView) -> JsonValue {
    JsonValue::Object(
        seq![
            ("error"@, match turn.turn.error {
                Some(e) => e,
                None => JsonValue::Null,
            }),
            ("status"@, JsonValue::Str(turn.turn.status)),
        ],
    )
}

/// The parts of the Message of a segment of a published Turn.
pub open spec fn segment_parts(turn: PublishedView, segment: (bool, int, int)) -> Outcome<Seq<SubView>> {
    if segment.1 == segment.2 {
        Ok(seq![SubView::Data(empty_turn_media(), empty_turn_value(turn))])
    } else if segment.0 {
        Ok(user_parts(turn.items, segment.1, segment.2))
    } else {
        provider_parts(turn.items, segment.1, segment.2)
    }
}

fn push_input_parts(out: &mut Vec<SubMessage>, input: &Json)
    ensures
        sub_views(final(out)@) == sub_views(old(out)@) + input_parts(json_view(*input)),
{
    let ghost start = sub_views(out@);
    let ghost view = json_view(*input);
    let kind = text_member_of(input, "type");
    let text_at = member_index(input, "text");
    let text: Option<String> = match text_at {
        Some(k) => match input {
            Json::Object(members) => match &members[k].1 {
                Json::Str(t) => Some(t.clone()),
                _ => None,
            },
            _ => None,
        },
        None => None,
    };
    proof {
        assert(text matches Some(t) ==> str_member(view, "text"@) == Some(t@));
        assert(text is None ==> str_member(view, "text"@) is None);
    }
    if str_equals(kind.as_str(), "text") && text.is_some() {
        let t = match text {
            Some(t) => t,
            None => String::new(),
        };
        out.push(SubMessage::Text { text: t });
        match member_index(input, "text_elements") {
            Some(k) => {
                let elements = match input {
                    Json::Object(members) => copy_json(&members[k].1),
                    _ => Json::Null,
                };
                out.push(
                    SubMessage::StructuredData {
                        media_type: String::from_str("application/vnd.openai.codex.text-elements+json"),
                        value: elements,
                    },
                );
            },
            None => {},
        }
    } else {
        out.push(
            SubMessage::StructuredData {
                media_type: String::from_str("application/vnd.openai.codex.user-input+json"),
                value: copy_json(input),
            },
        );
    }
    proof {
        assert(sub_views(out@) =~= start + input_parts(view));
    }
}

fn push_user_parts(out: &mut Vec<SubMessage>, items: &Vec<Json>, start: usize, end: usize)
    requires
        start <= end <= items.len(),
    ensures
        sub_views(final(out)@) == sub_views(old(out)@) + user_parts(json_views(items@), start as int, end as int),
{
    let ghost views = json_views(items@);
    let ghost first = sub_views(out@);
    let mut i: usize = start;
    proof {
        assert(first + user_parts(views, start as int, start as int) =~= first);
    }
    while i < end
        invariant
            start <= i <= end <= items.len(),
            views == json_views(items@),
            sub_views(out@) == first + user_parts(views, start as int, i as int),
        decreases end - i,
    {
        let ghost before = sub_views(out@);
        let item = &items[i];
        proof {
            assert(views[i as int] == json_view(*item));
        }
        match member_index(item, "content") {
            Some(k) => {
                match item {
                    Json::Object(members) => match &members[k].1 {
                        Json::Array(inputs) => {
                            let ghost iv = json_views(inputs@);
                            proof {
                                assert(json_view(members@[k as int].1)->Array_0 =~= iv);
                                assert(content_inputs(views[i as int]) == iv);
                                assert(before + inputs_parts(iv, 0) =~= before);
                            }
                            let mut j: usize = 0;
                            while j < inputs.len()
                                invariant
                                    j <= inputs.len(),
                                    iv == json_views(inputs@),
                                    sub_views(out@) == before + inputs_parts(iv, j as int),
                                decreases inputs.len() - j,
                            {
                                let ghost mid = sub_views(out@);
                                push_input_parts(out, &inputs[j]);
                                proof {
                                    assert(iv[j as int] == json_view(inputs@[j as int]));
                                    assert(sub_views(out@) =~= before + inputs_parts(iv, j + 1));
                                }
                                j = j + 1;
                            }
                            proof {
                                assert(sub_views(out@) =~= first + user_parts(views, start as int, i + 1));
                            }
                        },
                        _ => {
                            proof {
                                assert(content_inputs(views[i as int]) =~= Seq::<JsonValue>::empty());
                                assert(sub_views(out@) =~= first + user_parts(views, start as int, i + 1));
                            }
                        },
                    },
                    _ => {},
                }
            },
            None => {
                proof {
                    assert(content_inputs(views[i as int]) =~= Seq::<JsonValue>::empty());
                    assert(sub_views(out@) =~= first + user_parts(views, start as int, i + 1));
                }
            },
        }
        i = i + 1;
    }
}

fn item_part_exec(item: &Json, ordinal: usize) -> (result: Result<SubMessage, ControlError>)
    ensures
        match item_part(json_view(*item), ordinal as int) {
            Ok(part) => result matches Ok(m) && sub_view(m) == part,
            Err(e) => result matches Err(err) && is_error(err, e.0, e.1, e.2),
        },
{
    let ghost view = json_view(*item);
    let id: Option<String> = match member_index(item, "id") {
        Some(k) => match item {
            Json::Object(members) => match &members[k].1 {
                Json::Str(t) => Some(t.clone()),
                _ => None,
            },
            _ => None,
        },
        None => None,
    };
    let kind: Option<String> = match member_index(item, "type") {
        Some(k) => match item {
            Json::Object(members) => match &members[k].1 {
                Json::Str(t) => Some(t.clone()),
                _ => None,
            },
            _ => None,
        },
        None => None,
    };
    proof {
        assert(id matches Some(t) ==> str_member(view, "id"@) == Some(t@));
        assert(id is None ==> str_member(view, "id"@) is None);
        assert(kind matches Some(t) ==> str_member(view, "type"@) == Some(t@));
        assert(kind is None ==> str_member(view, "type"@) is None);
    }
    let id = match id {
        Some(t) => t,
        None => {
            return Err(
                control_error(ErrorCode::CodexHistoryReadFailed, "Codex provider item has no identity", false),
            );
        },
    };
    let kind = match kind {
        Some(t) => t,
        None => {
            return Err(
                control_error(ErrorCode::CodexHistoryReadFailed, "Codex provider item has no type", false),
            );
        },
    };
    let wide = ordinal as u64;
    if wide > 4294967295u64 {
        return Err(control_error(ErrorCode::CodexHistoryReadFailed, "Codex Turn has too many items", false));
    }
    Ok(
        SubMessage::ProviderItem {
            provider_kind: String::from_str("codex"),
            external_item_id: id,
            item_type: kind,
            ordinal: wide as u32,
            payload: bound_provider_payload(item),
            payload_schema_version: PROJECTION_VERSION,
        },
    )
}

fn provider_parts_exec(items: &Vec<Json>, start: usize, end: usize) -> (result: Result<Vec<SubMessage>, ControlError>)
    requires
        start <= end <= items.len(),
    ensures
        match provider_parts(json_views(items@), start as int, end as int) {
            Ok(parts) => result matches Ok(out) && sub_views(out@) == parts,
            Err(e) => result matches Err(err) && is_error(err, e.0, e.1, e.2),
        },
{
    let ghost views = json_views(items@);
    let mut out: Vec<SubMessage> = Vec::new();
    let mut i: usize = start;
    proof {
        assert(sub_views(out@) =~= Seq::<SubView>::empty());
    }
    while i < end
        invariant
            start <= i <= end <= items.len(),
            views == json_views(items@),
            provider_parts(views, start as int, i as int) == Ok::<Seq<SubView>, (ErrorCode, Seq<char>, bool)>(
                sub_views(out@),
            ),
        decreases end - i,
    {
        proof {
            assert(views[i as int] == json_view(items@[i as int]));
        }
        match item_part_exec(&items[i], i) {
            Ok(part) => {
                let ghost before = out@;
                out.push(part);
                proof {
                    assert(sub_views(out@) =~= sub_views(before).push(sub_view(part)));
                }
            },
            Err(e) => {
                proof {
                    lemma_provider_parts_error_stays(views, start as int, i + 1, end as int);
                }
                return Err(e);
            },
        }
        i = i + 1;
    }
    Ok(out)
}

proof fn lemma_provider_parts_error_stays(items: Seq<JsonValue>, start: int, n: int, m: int)
    requires
        start <= n <= m,
        provider_parts(items, start, n) is Err,
    ensures
        provider_parts(items, start, m) == provider_parts(items, start, n),
    decreases m - n,
{
    if m > n {
        lemma_provider_parts_error_stays(items, start, n, m - 1);
    }
}

fn segment_sub_messages(turn: &PublishedTurn, segment: Segment) -> (result: Result<Vec<SubMessage>, ControlError>)
    requires
        segment.start <= segment.end <= turn.items.len(),
    ensures
        match segment_parts(published_view(*turn), segment_view(segment)) {
            Ok(parts) => result matches Ok(out) && sub_views(out@) == parts,
            Err(e) => result matches Err(err) && is_error(err, e.0, e.1, e.2),
        },
{
    if segment.start == segment.end {
        let mut members: Vec<(String, Json)> = Vec::new();
        let error = match &turn.error {
            Some(e) => copy_json(e),
            None => Json::Null,
        };
        members.push((String::from_str("error"), error));
        members.push((String::from_str("status"), Json::Str(turn.status.clone())));
        let value = Json::Object(members);
        let mut out: Vec<SubMessage> = Vec::new();
        out.push(
            SubMessage::StructuredData {
                media_type: String::from_str("application/vnd.ait.codex.empty-turn+json"),
                value,
            },
        );
        proof {
            let tv = published_view(*turn);
            assert(members@[0].0@ == "error"@);
            assert(json_view(members@[0].1) == match tv.turn.error {
                Some(e) => e,
                None => JsonValue::Null,
            });
            assert(members@[1].0@ == "status"@);
            assert(members@[1].1 == Json::Str(turn.status));
            assert(json_view(members@[1].1) == JsonValue::Str(tv.turn.status));
            assert(json_view(value)->Object_0 =~= empty_turn_value(tv)->Object_0);
            assert(sub_views(out@) =~= seq![SubView::Data(empty_turn_media(), empty_turn_value(tv))]);
        }
        return Ok(out);
    }
    if segment.user {
        let mut out: Vec<SubMessage> = Vec::new();
        push_user_parts(&mut out, &turn.items, segment.start, segment.end);
        proof {
            assert(sub_views(Seq::<SubMessage>::empty()) =~= Seq::<SubView>::empty());
            assert(Seq::<SubView>::empty() + user_parts(json_views(turn.items@), segment.start as int, segment.end as int)
                =~= user_parts(json_views(turn.items@), segment.start as int, segment.end as int));
        }
        Ok(out)
    } else {
        provider_parts_exec(&turn.items, segment.start, segment.end)
    }
}

/// A segment lies within `n` items.
pub open spec fn segment_within(seg: (bool, int, int), n: int) -> bool {
    0 <= seg.1 <= seg.2 <= n
}

proof fn lemma_scan_bounds(items: Seq<JsonValue>, n: int)
    requires
        0 <= n <= items.len(),
    ensures
        forall|k: int|
            0 <= k < segment_scan(items, n).0.len() ==> segment_within(
                #[trigger] segment_scan(items, n).0[k],
                n,
            ),
        segment_scan(items, n).1 matches Some(s) ==> 0 <= s < n,
    decreases n,
{
    if n > 0 {
        lemma_scan_bounds(items, n - 1);
    }
}

/// Every segment of a Turn lies within its items.
pub proof fn lemma_segments_within(items: Seq<JsonValue>)
    ensures
        forall|k: int|
            0 <= k < segments_of(items).len() ==> segment_within(
                #[trigger] segments_of(items)[k],
                items.len() as int,
            ),
{
    lemma_scan_bounds(items, items.len() as int);
}

/// Planned Message `m` comes from a segment of one of the first `t` Turns
/// that lies within that Turn's items.
pub open spec fn plan_entry_ok(m: PlanView, turns: Seq<PublishedView>, t: int) -> bool {
    m.role != PlannedRole::Root && 0 <= m.turn < t && segment_within(m.segment, turns[m.turn].items.len() as int)
}

proof fn lemma_turn_plan_ok(
    project_id: Seq<char>,
    provider_id: Seq<char>,
    lineage_id: Seq<char>,
    updated_at: i64,
    turns: Seq<PublishedView>,
    t: int,
    parent: Seq<char>,
    n: int,
)
    requires
        0 <= t < turns.len(),
        0 <= n <= segments_of(turns[t].items).len(),
    ensures
        forall|k: int|
            0 <= k < turn_plan(project_id, provider_id, lineage_id, updated_at, turns[t], t, parent, n).len()
                ==> plan_entry_ok(
                #[trigger] turn_plan(project_id, provider_id, lineage_id, updated_at, turns[t], t, parent, n)[k],
                turns,
                t + 1,
            ),
    decreases n,
{
    if n > 0 {
        lemma_turn_plan_ok(project_id, provider_id, lineage_id, updated_at, turns, t, parent, n - 1);
        lemma_segments_within(turns[t].items);
        lemma_turn_plan_len(project_id, provider_id, lineage_id, updated_at, turns[t], t, parent, n - 1);
    }
}

/// The plan starts with the lineage's root, and every later Message comes
/// from a segment within the items of one of the first `t` Turns.
pub proof fn lemma_plan_entries(
    project_id: Seq<char>,
    provider_id: Seq<char>,
    lineage_id: Seq<char>,
    created_at: i64,
    updated_at: i64,
    turns: Seq<PublishedView>,
    t: int,
)
    requires
        0 <= t <= turns.len(),
    ensures
        message_plan(project_id, provider_id, lineage_id, created_at, updated_at, turns, t).len() > 0,
        message_plan(project_id, provider_id, lineage_id, created_at, updated_at, turns, t)[0].role
            == PlannedRole::Root,
        forall|k: int|
            1 <= k < message_plan(project_id, provider_id, lineage_id, created_at, updated_at, turns, t).len()
                ==> plan_entry_ok(
                #[trigger] message_plan(project_id, provider_id, lineage_id, created_at, updated_at, turns, t)[k],
                turns,
                t,
            ),
    decreases t,
{
    if t > 0 {
        lemma_plan_entries(project_id, provider_id, lineage_id, created_at, updated_at, turns, t - 1);
        let before = message_plan(project_id, provider_id, lineage_id, created_at, updated_at, turns, t - 1);
        let n = segments_of(turns[t - 1].items).len() as int;
        lemma_turn_plan_ok(
            project_id,
            provider_id,
            lineage_id,
            updated_at,
            turns,
            t - 1,
            before.last().id,
            n,
        );
        let whole = message_plan(project_id, provider_id, lineage_id, created_at, updated_at, turns, t);
        assert forall|k: int| 1 <= k < whole.len() implies plan_entry_ok(#[trigger] whole[k], turns, t) by {
            if k < before.len() {
                assert(whole[k] == before[k]);
                assert(plan_entry_ok(before[k], turns, t - 1));
            } else {
                let tp = turn_plan(
                    project_id,
                    provider_id,
                    lineage_id,
                    updated_at,
                    turns[t - 1],
                    t - 1,
                    before.last().id,
                    n,
                );
                assert(whole[k] == tp[k - before.len()]);
            }
        }
    }
}

/// The record of a lineage's synthetic root: its lineage, provider and
/// projection version.
pub open spec fn root_value(provider_id: Seq<char>, lineage_id: Seq<char>) -> JsonValue {
    JsonValue::Object(
        seq![
            ("lineage_id"@, JsonValue::Str(lineage_id)),
            ("provider_id"@, JsonValue::Str(provider_id)),
            ("schema_version"@, JsonValue::Number("1"@)),
        ],
    )
}

/// The parts of planned Message `m`: the root's record, or the parts of its
/// segment of its Turn.
pub open spec fn planned_parts(
    m: PlanView,
    turns: Seq<PublishedView>,
    provider_id: Seq<char>,
    lineage_id: Seq<char>,
) -> Outcome<Seq<SubView>> {
    if m.role == PlannedRole::Root {
        Ok(seq![SubView::Data(synthetic_root_media(), root_value(provider_id, lineage_id))])
    } else {
        segment_parts(turns[m.turn], m.segment)
    }
}

/// The parts of the first `n` planned Messages, or the first error.
pub open spec fn projection_parts(
    plan: Seq<PlanView>,
    turns: Seq<PublishedView>,
    provider_id: Seq<char>,
    lineage_id: Seq<char>,
    n: int,
) -> Outcome<Seq<Seq<SubView>>>
    decreases n,
{
    if n <= 0 {
        Ok(Seq::empty())
    } else {
        match projection_parts(plan, turns, provider_id, lineage_id, n - 1) {
            Err(e) => Err(e),
            Ok(done) => match planned_parts(plan[n - 1], turns, provider_id, lineage_id) {
                Err(e) => Err(e),
                Ok(parts) => Ok(done.push(parts)),
            },
        }
    }
}

proof fn lemma_projection_error_stays(
    plan: Seq<PlanView>,
    turns: Seq<PublishedView>,
    provider_id: Seq<char>,
    lineage_id: Seq<char>,
    n: int,
    m: int,
)
    requires
        0 <= n <= m,
        projection_parts(plan, turns, provider_id, lineage_id, n) is Err,
    ensures
        projection_parts(plan, turns, provider_id, lineage_id, m) == projection_parts(
            plan,
            turns,
            provider_id,
            lineage_id,
            n,
        ),
    decreases m - n,
{
    if m > n {
        lemma_projection_error_stays(plan, turns, provider_id, lineage_id, n, m - 1);
    }
}

/// A Message that projects part of a Thread: its place in the projection
/// and its parts.
#[derive(Debug)]
pub struct ProjectedMessage {
    pub planned: PlannedMessage,
    pub parts: Vec<SubMessage>,
}

fn root_parts(provider_id: &str, lineage_id: &str) -> (parts: Vec<SubMessage>)
    ensures
        sub_views(parts@) == seq![SubView::Data(synthetic_root_media(), root_value(provider_id@, lineage_id@))],
{
    let mut members: Vec<(String, Json)> = Vec::new();
    members.push((String::from_str("lineage_id"), Json::Str(String::from_str(lineage_id))));
    members.push((String::from_str("provider_id"), Json::Str(String::from_str(provider_id))));
    members.push((String::from_str("schema_version"), Json::Number(String::from_str("1"))));
    let value = Json::Object(members);
    proof {
        assert(members@[0].0@ == "lineage_id"@);
        assert(json_view(members@[0].1) == JsonValue::Str(lineage_id@));
        assert(members@[1].0@ == "provider_id"@);
        assert(json_view(members@[1].1) == JsonValue::Str(provider_id@));
        assert(members@[2].0@ == "schema_version"@);
        assert(json_view(members@[2].1) == JsonValue::Number("1"@));
        assert(json_view(value)->Object_0 =~= root_value(provider_id@, lineage_id@)->Object_0);
    }
    let mut parts: Vec<SubMessage> = Vec::new();
    parts.push(
        SubMessage::StructuredData {
            media_type: String::from_str("application/vnd.ait.codex.synthetic-root+json"),
            value,
        },
    );
    proof {
        assert(sub_views(parts@) =~= seq![
            SubView::Data(synthetic_root_media(), root_value(provider_id@, lineage_id@)),
        ]);
    }
    parts
}

/// Projects a Thread's published Turns into Messages: the plan of
/// `message_plan`, each Message with the parts of `planned_parts`, or the
/// first error a provider item gives.
pub fn project_messages(
    project_id: &str,
    provider_id: &str,
    lineage_id: &str,
    created_at: i64,
    updated_at: i64,
    turns: &Vec<PublishedTurn>,
) -> (result: Result<Vec<ProjectedMessage>, ControlError>)
    ensures
        ({
            let plan = message_plan(
                project_id@,
                provider_id@,
                lineage_id@,
                created_at,
                updated_at,
                published_views(turns@),
                turns.len() as int,
            );
            match projection_parts(plan, published_views(turns@), provider_id@, lineage_id@, plan.len() as int) {
                Ok(parts) => result matches Ok(out) && out.len() == plan.len() && forall|k: int|
                    0 <= k < out.len() ==> plan_view(#[trigger] out@[k].planned) == plan[k]
                        && sub_views(out@[k].parts@) == parts[k],
                Err(e) => result matches Err(err) && is_error(err, e.0, e.1, e.2),
            }
        }),
{
    let ghost views = published_views(turns@);
    let planned = plan_messages(project_id, provider_id, lineage_id, created_at, updated_at, turns);
    let ghost plan = plan_views(planned@);
    proof {
        lemma_plan_entries(
            project_id@,
            provider_id@,
            lineage_id@,
            created_at,
            updated_at,
            views,
            turns.len() as int,
        );
    }
    let mut out: Vec<ProjectedMessage> = Vec::new();
    let mut rest = planned;
    let mut taken: Vec<PlannedMessage> = Vec::new();
    let ghost all = rest@;
    proof {
        assert(projection_parts(plan, views, provider_id@, lineage_id@, 0) == Ok::<Seq<Seq<SubView>>, (ErrorCode, Seq<char>, bool)>(Seq::empty()));
    }
    let mut i: usize = 0;
    let n = all_len(&rest);
    while i < n
        invariant
            i <= n,
            n == all.len(),
            plan == plan_views(all),
            plan == message_plan(
                project_id@,
                provider_id@,
                lineage_id@,
                created_at,
                updated_at,
                published_views(turns@),
                turns.len() as int,
            ),
            views == published_views(turns@),
            plan.len() > 0,
            plan[0].role == PlannedRole::Root,
            forall|k: int| 1 <= k < plan.len() ==> plan_entry_ok(#[trigger] plan[k], views, turns.len() as int),
            rest@ == all.skip(i as int),
            out.len() == i,
            projection_parts(plan, views, provider_id@, lineage_id@, i as int) matches Ok(done) && done.len()
                == i && forall|k: int|
                0 <= k < i ==> plan_view(#[trigger] out@[k].planned) == plan[k] && sub_views(out@[k].parts@)
                    == done[k],
        decreases n - i,
    {
        let m = rest.remove(0);
        proof {
            assert(m == all[i as int]);
            assert(plan_view(m) == plan[i as int]);
            assert(rest@ =~= all.skip(i + 1));
        }
        let parts = if i == 0 {
            root_parts(provider_id, lineage_id)
        } else {
            proof {
                assert(plan_entry_ok(plan[i as int], views, turns.len() as int));
                assert(views[m.turn as int] == published_view(turns@[m.turn as int]));
            }
            match segment_sub_messages(&turns[m.turn], m.segment) {
                Ok(p) => p,
                Err(e) => {
                    proof {
                        assert(plan[i as int].role != PlannedRole::Root);
                        assert(plan[i as int].turn == m.turn as int);
                        assert(plan[i as int].segment == segment_view(m.segment));
                        assert(planned_parts(plan[i as int], views, provider_id@, lineage_id@)
                            == segment_parts(published_view(turns@[m.turn as int]), segment_view(m.segment)));
                        let sp = segment_parts(published_view(turns@[m.turn as int]), segment_view(m.segment));
                        assert(sp is Err);
                        assert(projection_parts(plan, views, provider_id@, lineage_id@, i + 1)
                            == Err::<Seq<Seq<SubView>>, (ErrorCode, Seq<char>, bool)>(sp->Err_0));
                        lemma_projection_error_stays(
                            plan,
                            views,
                            provider_id@,
                            lineage_id@,
                            i + 1,
                            plan.len() as int,
                        );
                    }
                    return Err(e);
                },
            }
        };
        let ghost done = projection_parts(plan, views, provider_id@, lineage_id@, i as int)->Ok_0;
        out.push(ProjectedMessage { planned: m, parts });
        proof {
            assert(projection_parts(plan, views, provider_id@, lineage_id@, i + 1) == Ok::<Seq<Seq<SubView>>, (ErrorCode, Seq<char>, bool)>(
                done.push(sub_views(parts@)),
            ));
        }
        i = i + 1;
    }
    proof {
        assert(plan.len() == n);
    }
    Ok(out)
}

fn all_len(v: &Vec<PlannedMessage>) -> (n: usize)
    ensures
        n == v.len(),
{
    v.len()
}

/// A snapshot of a native Codex Thread, as the history source reports it.
#[derive(Debug)]
pub struct CodexSnapshot {
    pub id: String,
    pub session_id: String,
    pub cwd: String,
    pub forked_from_id: Option<String>,
    /// When the Thread was created and last updated, in seconds.
    pub created_at: i64,
    pub updated_at: i64,
    /// The writer confirmed that the last Turn ended.
    pub writer_confirmed: bool,
    pub turns: Vec<CodexTurn>,
}

/// What the import of a Thread produces: the Session it is bound to (an
/// existing one, or a new one with a stable id), its lineage, whether its
/// history was read whole, the head of its projection and the projected
/// Messages not stored yet.
#[derive(Debug)]
pub struct Materialization {
    pub session_id: String,
    pub existing_session: bool,
    pub lineage_id: String,
    pub relationship: Relationship,
    pub completeness: Completeness,
    pub head_message_id: String,
    pub messages: Vec<ProjectedMessage>,
}

/// What the import of a Thread decides, before stored Messages are left out.
pub struct MaterializedView {
    pub session_id: Seq<char>,
    pub existing_session: bool,
    pub lineage: (Seq<char>, Relationship),
    pub completeness: Completeness,
    pub head_message_id: Seq<char>,
    pub plan: Seq<PlanView>,
    pub parts: Seq<Seq<SubView>>,
}

/// The id of the Session a new import of a provider's Thread creates.
pub open spec fn imported_session_id(provider_id: Seq<char>, thread_id: Seq<char>) -> Seq<char> {
    stable_id(seq!["session"@, provider_id, thread_id])
}

/// The import of a Thread: its identities are checked, its bound Session
/// found, its finished Turns published, its lineage resolved and its
/// Messages projected, or the first error of these steps. `confirmed` holds
/// the content hashes stored Messages record.
pub open spec fn materialization(
    snapshot: CodexSnapshot,
    provider_id: Seq<char>,
    project_id: Seq<char>,
    agent_id: Seq<char>,
    bindings: Seq<ThreadBinding>,
    confirmed: Seq<Seq<char>>,
) -> Outcome<MaterializedView> {
    if !snapshot_identity_ok(
        snapshot.id@,
        snapshot.session_id@,
        snapshot.cwd@,
        provider_id,
        project_id,
        agent_id,
    ) {
        Err(snapshot_identity_error())
    } else {
        match bound_session_of(bindings, provider_id, snapshot.id@, project_id) {
            Err(e) => Err(e),
            Ok(bound) => match publication(
                turn_views(snapshot.turns@),
                snapshot.writer_confirmed,
                confirmed,
                snapshot.turns.len() as int,
            ) {
                Err(e) => Err(e),
                Ok((published, incomplete)) => {
                    let turns = trimmed(published);
                    let existing = match bound {
                        Some(k) => Some(bindings[k]),
                        None => None,
                    };
                    let lineage = lineage_of(
                        snapshot.id@,
                        opt_view(snapshot.forked_from_id),
                        provider_id,
                        project_id,
                        existing,
                        bindings,
                        published_keys(turns),
                    );
                    let plan = message_plan(
                        project_id,
                        provider_id,
                        lineage.0,
                        snapshot.created_at,
                        snapshot.updated_at,
                        turns,
                        turns.len() as int,
                    );
                    match projection_parts(plan, turns, provider_id, lineage.0, plan.len() as int) {
                        Err(e) => Err(e),
                        Ok(parts) => Ok(
                            MaterializedView {
                                session_id: match bound {
                                    Some(k) => bindings[k].session_id@,
                                    None => imported_session_id(provider_id, snapshot.id@),
                                },
                                existing_session: bound is Some,
                                lineage,
                                completeness: if incomplete {
                                    Completeness::Partial
                                } else {
                                    Completeness::Full
                                },
                                head_message_id: plan.last().id,
                                plan,
                                parts,
                            },
                        ),
                    }
                },
            },
        }
    }
}

/// The first `n` projected Messages whose ids are not among `stored`.
pub open spec fn fresh(plan: Seq<PlanView>, parts: Seq<Seq<SubView>>, stored: Seq<Seq<char>>, n: int) -> Seq<
    (PlanView, Seq<SubView>),
>
    decreases n,
{
    if n <= 0 {
        Seq::empty()
    } else if stored.contains(plan[n - 1].id) {
        fresh(plan, parts, stored, n - 1)
    } else {
        fresh(plan, parts, stored, n - 1).push((plan[n - 1], parts[n - 1]))
    }
}

/// The views of projected Messages.
pub open spec fn projected_views(messages: Seq<ProjectedMessage>) -> Seq<(PlanView, Seq<SubView>)> {
    messages.map_values(|m: ProjectedMessage| (plan_view(m.planned), sub_views(m.parts@)))
}

/// Imports a native Thread (see `materialization`); the Messages whose ids
/// are among `stored_message_ids` are already stored and are left out.
pub fn materialize_thread(
    snapshot: &CodexSnapshot,
    provider_id: &str,
    project_id: &str,
    agent_id: &str,
    bindings: &Vec<ThreadBinding>,
    confirmed: &Vec<String>,
    stored_message_ids: &Vec<String>,
) -> (result: Result<Materialization, ControlError>)
    ensures
        match materialization(*snapshot, provider_id@, project_id@, agent_id@, bindings@, texts(confirmed@)) {
            Ok(v) => result matches Ok(m) && m.session_id@ == v.session_id && m.existing_session
                == v.existing_session && (m.lineage_id@, m.relationship) == v.lineage && m.completeness
                == v.completeness && m.head_message_id@ == v.head_message_id && projected_views(
                m.messages@,
            ) == fresh(v.plan, v.parts, texts(stored_message_ids@), v.plan.len() as int),
            Err(e) => result matches Err(err) && is_error(err, e.0, e.1, e.2),
        },
{
    validate_snapshot_identity(
        snapshot.id.as_str(),
        snapshot.session_id.as_str(),
        snapshot.cwd.as_str(),
        provider_id,
        project_id,
        agent_id,
    )?;
    let bound = bound_session(bindings, provider_id, snapshot.id.as_str(), project_id)?;
    let (published, completeness) = normalize_turns(&snapshot.turns, snapshot.writer_confirmed, confirmed)?;
    let existing: Option<&ThreadBinding> = match bound {
        Some(k) => Some(&bindings[k]),
        None => None,
    };
    let forked: Option<&str> = match &snapshot.forked_from_id {
        Some(f) => Some(f.as_str()),
        None => None,
    };
    let (lineage_id, relationship) = resolve_lineage(
        snapshot.id.as_str(),
        forked,
        provider_id,
        project_id,
        existing,
        bindings,
        &published,
    );
    let projected = project_messages(
        project_id,
        provider_id,
        lineage_id.as_str(),
        snapshot.created_at,
        snapshot.updated_at,
        &published,
    )?;
    let ghost plan = message_plan(
        project_id@,
        provider_id@,
        lineage_id@,
        snapshot.created_at,
        snapshot.updated_at,
        published_views(published@),
        published@.len() as int,
    );
    let ghost parts = projection_parts(
        plan,
        published_views(published@),
        provider_id@,
        lineage_id@,
        plan.len() as int,
    )->Ok_0;
    proof {
        lemma_plan_entries(
            project_id@,
            provider_id@,
            lineage_id@,
            snapshot.created_at,
            snapshot.updated_at,
            published_views(published@),
            published@.len() as int,
        );
    }
    let session_id = match bound {
        Some(k) => bindings[k].session_id.clone(),
        None => {
            let mut parts_of_id: Vec<String> = Vec::new();
            parts_of_id.push(String::from_str("session"));
            parts_of_id.push(String::from_str(provider_id));
            parts_of_id.push(snapshot.id.clone());
            proof {
                assert(texts(parts_of_id@) =~= seq!["session"@, provider_id@, snapshot.id@]);
            }
            stable_id_of(parts_of_id)
        },
    };
    let count = projected.len();
    let head = projected[count - 1].planned.id.clone();
    let ghost all = projected@;
    let mut rest = projected;
    let mut messages: Vec<ProjectedMessage> = Vec::new();
    let mut i: usize = 0;
    while i < count
        invariant
            i <= count,
            count == all.len(),
            count == plan.len(),
            rest@ == all.skip(i as int),
            forall|k: int|
                0 <= k < count ==> plan_view(#[trigger] all[k].planned) == plan[k] && sub_views(all[k].parts@)
                    == parts[k],
            projected_views(messages@) == fresh(plan, parts, texts(stored_message_ids@), i as int),
        decreases count - i,
    {
        let m = rest.remove(0);
        proof {
            assert(m == all[i as int]);
            assert(rest@ =~= all.skip(i + 1));
        }
        if !text_list_contains(stored_message_ids, m.planned.id.as_str()) {
            let ghost before = messages@;
            messages.push(m);
            proof {
                assert(messages@ =~= before.push(messages@.last()));
                assert(projected_views(messages@) =~= projected_views(before).push(
                    (plan_view(messages@.last().planned), sub_views(messages@.last().parts@)),
                ));
            }
        }
        i = i + 1;
    }
    Ok(
        Materialization {
            session_id,
            existing_session: bound.is_some(),
            lineage_id,
            relationship,
            completeness,
            head_message_id: head,
            messages,
        },
    )
}

} // verus!
