//! Sessions: safe worktree names, generated metadata, and the exclusion that
//! keeps one command at a time on a Session.
use std::sync::Arc;
use vstd::prelude::*;
use crate::errors::{control_error, is_error, ControlError, ErrorCode, Outcome};
use crate::runs::SessionRecord;
use crate::text::{
    chars_of, has_control, has_control_str, is_blank, is_blank_str, is_whitespace, push_char,
    is_whitespace_char, push_str, str_equals, text_list_contains,
};

verus! {

/// The index after the leading white space of `s[k..]`.
pub open spec fn trim_start_from(s: Seq<char>, k: int) -> int
    decreases s.len() - k,
{
    if k < 0 || k >= s.len() || !is_whitespace_char(s[k]) {
        k
    } else {
        trim_start_from(s, k + 1)
    }
}

/// The index before the trailing white space of `s[..k]`.
pub open spec fn trim_end_to(s: Seq<char>, k: int) -> int
    decreases k,
{
    if k <= 0 || k > s.len() || !is_whitespace_char(s[k - 1]) {
        k
    } else {
        trim_end_to(s, k - 1)
    }
}

/// `s.trim()`: `s` without leading and trailing white space.
pub open spec fn trimmed(s: Seq<char>) -> Seq<char> {
    let a = trim_start_from(s, 0);
    let b = trim_end_to(s, s.len() as int);
    if b <= a {
        Seq::empty()
    } else {
        s.subrange(a, b)
    }
}

/// The length of `s` once trailing spaces and dots are removed
/// (`trim_end_matches([' ', '.'])`).
pub open spec fn strip_dots_spaces_to(s: Seq<char>, k: int) -> int
    decreases k,
{
    if k <= 0 || k > s.len() || !(s[k - 1] == ' ' || s[k - 1] == '.') {
        k
    } else {
        strip_dots_spaces_to(s, k - 1)
    }
}

/// `x.eq_ignore_ascii_case(&y)`: equal, or the same ASCII letter in either case.
pub open spec fn same_char_ignoring_ascii_case(x: char, y: char) -> bool {
    x == y || ('A' <= x <= 'Z' && x as u32 + 32 == y as u32) || ('A' <= y <= 'Z' && y as u32 + 32
        == x as u32)
}

/// `a.eq_ignore_ascii_case(b)` for an ASCII text `b`.
pub open spec fn same_ignoring_ascii_case(a: Seq<char>, b: Seq<char>) -> bool {
    a.len() == b.len() && forall|i: int|
        0 <= i < a.len() ==> same_char_ignoring_ascii_case(#[trigger] a[i], b[i])
}

/// The names that the Project database and its sidecars take in `.ait`.
pub open spec fn reserved_names() -> Seq<Seq<char>> {
    seq![
        "project.sqlite3"@,
        "project.sqlite3-wal"@,
        "project.sqlite3-shm"@,
        "project.sqlite3-journal"@,
    ]
}

/// A Session id names Project storage once trailing spaces and dots are
/// dropped and ASCII case is ignored.
pub open spec fn names_storage(id: Seq<char>) -> bool {
    let stem = id.subrange(0, strip_dots_spaces_to(id, id.len() as int));
    exists|r: int| 0 <= r < reserved_names().len() && same_ignoring_ascii_case(stem, reserved_names()[r])
}

/// A Session id is a safe single path component.
pub open spec fn safe_component(id: Seq<char>) -> bool {
    !is_blank(id) && id != "."@ && id != ".."@ && !id.contains('/') && !id.contains('\\')
        && !has_control(id)
}

/// The outcome of checking a Session id used as a worktree directory name.
pub open spec fn session_component_check(id: Seq<char>) -> Outcome<()> {
    if names_storage(id) {
        Err((ErrorCode::InvalidSession, "session id is reserved for project storage"@, false))
    } else if !safe_component(id) {
        Err(
            (ErrorCode::InvalidSession, "session id must be a nonempty safe path component"@, false),
        )
    } else {
        Ok(())
    }
}

fn same_char_ignoring_case(x: char, y: char) -> (same: bool)
    ensures
        same == same_char_ignoring_ascii_case(x, y),
{
    let xu = x as u32;
    let yu = y as u32;
    x == y || ('A' <= x && x <= 'Z' && xu + 32 == yu) || ('A' <= y && y <= 'Z' && yu + 32 == xu)
}

fn same_ignoring_case(a: &Vec<char>, n: usize, b: &str) -> (same: bool)
    requires
        n <= a@.len(),
    ensures
        same == same_ignoring_ascii_case(a@.subrange(0, n as int), b@),
{
    let bc = chars_of(b);
    if n != bc.len() {
        return false;
    }
    let mut i: usize = 0;
    while i < n
        invariant
            i <= n <= a@.len(),
            n == bc@.len(),
            bc@ == b@,
            forall|j: int| 0 <= j < i ==> same_char_ignoring_ascii_case(#[trigger] a@[j], bc@[j]),
        decreases n - i,
    {
        if !same_char_ignoring_case(a[i], bc[i]) {
            proof {
                assert(a@.subrange(0, n as int)[i as int] == a@[i as int]);
            }
            return false;
        }
        i = i + 1;
    }
    proof {
        assert forall|j: int| 0 <= j < n implies same_char_ignoring_ascii_case(
            #[trigger] a@.subrange(0, n as int)[j],
            b@[j],
        ) by {
            assert(a@.subrange(0, n as int)[j] == a@[j]);
        }
    }
    true
}

fn contains_char(chars: &Vec<char>, c: char) -> (found: bool)
    ensures
        found == chars@.contains(c),
{
    let mut i: usize = 0;
    while i < chars.len()
        invariant
            i <= chars@.len(),
            forall|j: int| 0 <= j < i ==> chars@[j] != c,
        decreases chars.len() - i,
    {
        if chars[i] == c {
            return true;
        }
        i = i + 1;
    }
    false
}

/// Checks a Session id used as the name of its worktree directory (see
/// `session_component_check`).
pub fn validate_session_path_component(id: &str) -> (result: Result<(), ControlError>)
    ensures
        match (result, session_component_check(id@)) {
            (Ok(()), Ok(())) => true,
            (Err(e), Err(spec)) => is_error(e, spec.0, spec.1, spec.2),
            _ => false,
        },
{
    let chars = chars_of(id);
    let mut end: usize = chars.len();
    while end > 0 && (chars[end - 1] == ' ' || chars[end - 1] == '.')
        invariant
            end <= chars@.len(),
            chars@ == id@,
            strip_dots_spaces_to(id@, end as int) == strip_dots_spaces_to(id@, id@.len() as int),
        decreases end,
    {
        end = end - 1;
    }
    let reserved = same_ignoring_case(&chars, end, "project.sqlite3") || same_ignoring_case(
        &chars,
        end,
        "project.sqlite3-wal",
    ) || same_ignoring_case(&chars, end, "project.sqlite3-shm") || same_ignoring_case(
        &chars,
        end,
        "project.sqlite3-journal",
    );
    proof {
        let stem = id@.subrange(0, end as int);
        assert(chars@.subrange(0, end as int) == stem);
        if names_storage(id@) {
            let r = choose|r: int|
                0 <= r < reserved_names().len() && same_ignoring_ascii_case(
                    stem,
                    reserved_names()[r],
                );
            assert(r == 0 || r == 1 || r == 2 || r == 3);
        }
        if reserved {
            if same_ignoring_ascii_case(stem, "project.sqlite3"@) {
                assert(same_ignoring_ascii_case(stem, reserved_names()[0]));
            } else if same_ignoring_ascii_case(stem, "project.sqlite3-wal"@) {
                assert(same_ignoring_ascii_case(stem, reserved_names()[1]));
            } else if same_ignoring_ascii_case(stem, "project.sqlite3-shm"@) {
                assert(same_ignoring_ascii_case(stem, reserved_names()[2]));
            } else {
                assert(same_ignoring_ascii_case(stem, reserved_names()[3]));
            }
        }
    }
    if reserved {
        return Err(
            control_error(ErrorCode::InvalidSession, "session id is reserved for project storage", false),
        );
    }
    if is_blank_str(id) || str_equals(id, ".") || str_equals(id, "..") || contains_char(&chars, '/')
        || contains_char(&chars, '\\') || has_control_str(id) {
        return Err(
            control_error(
                ErrorCode::InvalidSession,
                "session id must be a nonempty safe path component",
                false,
            ),
        );
    }
    Ok(())
}

/// `Path::join` on POSIX for a relative part: the part after the base, with
/// one separator between them unless the base is empty or ends with one.
pub open spec fn path_join(base: Seq<char>, part: Seq<char>) -> Seq<char> {
    if base.len() == 0 {
        part
    } else if base.last() == '/' {
        base + part
    } else {
        base + "/"@ + part
    }
}

fn push_path_part(path: &mut String, part: &str)
    ensures
        final(path)@ == path_join(old(path)@, part@),
{
    let chars = chars_of(path.as_str());
    if chars.len() > 0 && chars[chars.len() - 1] != '/' {
        push_str(path, "/");
    }
    push_str(path, part);
}

/// The worktree of a Session: `<project workdir>/.ait/<session id>`, once
/// the id is known to be a safe, unreserved path component.
pub fn session_worktree_path(project_workdir: &str, session_id: &str) -> (result: Result<
    String,
    ControlError,
>)
    ensures
        match (result, session_component_check(session_id@)) {
            (Ok(path), Ok(())) => path@ == path_join(
                path_join(project_workdir@, ".ait"@),
                session_id@,
            ),
            (Err(e), Err(spec)) => is_error(e, spec.0, spec.1, spec.2),
            _ => false,
        },
{
    match validate_session_path_component(session_id) {
        Ok(()) => {},
        Err(e) => return Err(e),
    }
    let mut path = String::new();
    push_str(&mut path, project_workdir);
    push_path_part(&mut path, ".ait");
    push_path_part(&mut path, session_id);
    Ok(path)
}

/// Characters a generated title may not hold: quotes and Markdown markup.
pub open spec fn title_markup(c: char) -> bool {
    c == '"' || c == '\'' || c == '\u{201c}' || c == '\u{201d}' || c == '\u{2018}' || c
        == '\u{2019}' || c == '#' || c == '*' || c == '`' || c == '[' || c == ']' || c == '<' || c
        == '>'
}

/// Characters a generated title may not end with: sentence punctuation.
pub open spec fn title_ending(c: char) -> bool {
    c == '.' || c == '\u{3002}' || c == '!' || c == '\u{ff01}' || c == '?' || c == '\u{ff1f}' || c
        == ',' || c == '\u{ff0c}' || c == ';' || c == '\u{ff1b}' || c == ':' || c == '\u{ff1a}'
}

/// Upper bound of a generated title, in characters.
pub const MAX_TITLE_CHARS: usize = 36;

/// Generated Session metadata is usable: the trimmed title is non-empty, at
/// most `MAX_TITLE_CHARS` characters, free of markup and not ended by
/// punctuation, and the description is not blank.
pub open spec fn metadata_acceptable(title: Seq<char>, description: Seq<char>) -> bool {
    let t = trimmed(title);
    &&& t.len() > 0
    &&& t.len() <= MAX_TITLE_CHARS
    &&& !(exists|i: int| 0 <= i < t.len() && title_markup(t[i]))
    &&& !title_ending(t.last())
    &&& !is_blank(description)
}

fn is_title_markup(c: char) -> (r: bool)
    ensures
        r == title_markup(c),
{
    c == '"' || c == '\'' || c == '\u{201c}' || c == '\u{201d}' || c == '\u{2018}' || c
        == '\u{2019}' || c == '#' || c == '*' || c == '`' || c == '[' || c == ']' || c == '<' || c
        == '>'
}

fn is_title_ending(c: char) -> (r: bool)
    ensures
        r == title_ending(c),
{
    c == '.' || c == '\u{3002}' || c == '!' || c == '\u{ff01}' || c == '?' || c == '\u{ff1f}' || c
        == ',' || c == '\u{ff0c}' || c == ';' || c == '\u{ff1b}' || c == ':' || c == '\u{ff1a}'
}

/// Checks the title and description generated for a Session (see `metadata_acceptable`).
pub fn validate_session_metadata(title: &str, description: &str) -> (result: Result<
    (),
    ControlError,
>)
    ensures
        metadata_acceptable(title@, description@) ==> result is Ok,
        !metadata_acceptable(title@, description@) ==> (result matches Err(e) && is_error(
            e,
            ErrorCode::InvalidSession,
            "generated Session metadata is outside the requested constraints"@,
            false,
        )),
{
    let chars = chars_of(title);
    let mut a: usize = 0;
    while a < chars.len() && is_whitespace(chars[a])
        invariant
            a <= chars@.len(),
            chars@ == title@,
            trim_start_from(title@, a as int) == trim_start_from(title@, 0),
        decreases chars.len() - a,
    {
        a = a + 1;
    }
    let mut b: usize = chars.len();
    while b > 0 && is_whitespace(chars[b - 1])
        invariant
            b <= chars@.len(),
            chars@ == title@,
            trim_end_to(title@, b as int) == trim_end_to(title@, title@.len() as int),
        decreases b,
    {
        b = b - 1;
    }
    let ok = if b <= a {
        false
    } else {
        let n = b - a;
        let mut clean = true;
        let mut i: usize = a;
        while i < b && clean
            invariant
                a <= i <= b <= chars@.len(),
                chars@ == title@,
                clean == (forall|j: int| a <= j < i ==> !title_markup(#[trigger] chars@[j])),
            decreases b - i,
        {
            clean = !is_title_markup(chars[i]);
            i = i + 1;
        }
        let ghost t = title@.subrange(a as int, b as int);
        proof {
            if clean {
                assert(i == b);
                assert forall|j: int| 0 <= j < t.len() implies !title_markup(t[j]) by {
                    assert(t[j] == chars@[a + j]);
                }
            } else {
                assert(exists|j: int| a <= j < i && title_markup(chars@[j]));
                let j = choose|j: int| a <= j < i && title_markup(chars@[j]);
                assert(t[j - a] == chars@[j]);
            }
        }
        n <= MAX_TITLE_CHARS && clean && !is_title_ending(chars[b - 1]) && !is_blank_str(
            description,
        )
    };
    if ok {
        Ok(())
    } else {
        Err(
            control_error(
                ErrorCode::InvalidSession,
                "generated Session metadata is outside the requested constraints",
                false,
            ),
        )
    }
}

/// `text.trim()`.
pub fn trim_text(text: &str) -> (t: String)
    ensures
        t@ == trimmed(text@),
{
    let chars = chars_of(text);
    let mut a: usize = 0;
    while a < chars.len() && is_whitespace(chars[a])
        invariant
            a <= chars@.len(),
            chars@ == text@,
            trim_start_from(text@, a as int) == trim_start_from(text@, 0),
        decreases chars.len() - a,
    {
        a = a + 1;
    }
    let mut b: usize = chars.len();
    while b > 0 && is_whitespace(chars[b - 1])
        invariant
            b <= chars@.len(),
            chars@ == text@,
            trim_end_to(text@, b as int) == trim_end_to(text@, text@.len() as int),
        decreases b,
    {
        b = b - 1;
    }
    let mut t = String::new();
    if a < b {
        let mut i: usize = a;
        while i < b
            invariant
                a <= i <= b <= chars@.len(),
                chars@ == text@,
                t@ == text@.subrange(a as int, i as int),
            decreases b - i,
        {
            push_char(&mut t, chars[i]);
            proof {
                assert(text@.subrange(a as int, i + 1) =~= text@.subrange(a as int, i as int).push(chars@[i as int]));
            }
            i = i + 1;
        }
    }
    proof {
        if b <= a {
            assert(t@ =~= Seq::<char>::empty());
        }
    }
    t
}

/// Every Session with id `session_id` is below its last version.
pub open spec fn session_versions_below_max(sessions: Seq<SessionRecord>, session_id: Seq<char>) -> bool {
    forall|k: int|
        0 <= k < sessions.len() && (#[trigger] sessions[k]).id@ == session_id ==> sessions[k].version
            < u64::MAX
}

/// The commands whose admission depends on a Session.
#[derive(Debug)]
pub enum SessionCommand {
    SendMessage { session_id: String },
    SetSessionAgent { session_id: String },
    SetSessionConfig { session_id: String },
    CreateSession { id: String, project_id: String },
    ForkSession { id: String, project_id: String },
    DeriveSession { id: String, project_id: String, source_session_id: String },
    /// Any command that does not touch one Session.
    Other,
}

/// The Session a command occupies: the one it acts on or creates.
pub open spec fn command_session_of(command: SessionCommand) -> Option<Seq<char>> {
    match command {
        SessionCommand::SendMessage { session_id } => Some(session_id@),
        SessionCommand::SetSessionAgent { session_id } => Some(session_id@),
        SessionCommand::SetSessionConfig { session_id } => Some(session_id@),
        SessionCommand::CreateSession { id, .. } => Some(id@),
        SessionCommand::ForkSession { id, .. } => Some(id@),
        SessionCommand::DeriveSession { id, .. } => Some(id@),
        SessionCommand::Other => None,
    }
}

/// The Session a command occupies (see `command_session_of`).
pub fn command_session(command: &SessionCommand) -> (id: Option<&str>)
    ensures
        match id {
            Some(s) => command_session_of(*command) == Some(s@),
            None => command_session_of(*command).is_none(),
        },
{
    match command {
        SessionCommand::SendMessage { session_id } => Some(session_id.as_str()),
        SessionCommand::SetSessionAgent { session_id } => Some(session_id.as_str()),
        SessionCommand::SetSessionConfig { session_id } => Some(session_id.as_str()),
        SessionCommand::CreateSession { id, .. } => Some(id.as_str()),
        SessionCommand::ForkSession { id, .. } => Some(id.as_str()),
        SessionCommand::DeriveSession { id, .. } => Some(id.as_str()),
        SessionCommand::Other => None,
    }
}

/// The error of a Session that is already in use.
pub open spec fn busy_error() -> (ErrorCode, Seq<char>, bool) {
    (ErrorCode::SessionBusy, "session already has an active run or operation"@, false)
}

/// The error of a Session that is already in use.
pub fn busy() -> (e: ControlError)
    ensures
        is_error(e, busy_error().0, busy_error().1, busy_error().2),
{
    control_error(ErrorCode::SessionBusy, "session already has an active run or operation", false)
}

/// Refuses a Session that has an active Run.
pub fn ensure_idle(session: &SessionRecord) -> (result: Result<(), ControlError>)
    ensures
        session.active_run_id.is_none() ==> result is Ok,
        session.active_run_id.is_some() ==> (result matches Err(e) && is_error(
            e,
            busy_error().0,
            busy_error().1,
            busy_error().2,
        )),
{
    if session.active_run_id.is_some() {
        Err(busy())
    } else {
        Ok(())
    }
}

/// `k` is the first Session with id `id`.
pub open spec fn first_session(sessions: Seq<SessionRecord>, id: Seq<char>, k: int) -> bool {
    0 <= k < sessions.len() && sessions[k].id@ == id && forall|j: int|
        0 <= j < k ==> (#[trigger] sessions[j]).id@ != id
}

/// The position of the first Session with id `id`.
pub fn find_session(sessions: &Vec<SessionRecord>, id: &str) -> (found: Option<usize>)
    ensures
        match found {
            Some(k) => first_session(sessions@, id@, k as int) && k == choose|c: int|
                first_session(sessions@, id@, c),
            None => !exists|c: int| first_session(sessions@, id@, c),
        },
{
    let mut k: usize = 0;
    while k < sessions.len()
        invariant
            k <= sessions@.len(),
            forall|j: int| 0 <= j < k ==> (#[trigger] sessions@[j]).id@ != id@,
        decreases sessions.len() - k,
    {
        if str_equals(sessions[k].id.as_str(), id) {
            proof {
                assert(first_session(sessions@, id@, k as int));
                let c = choose|c: int| first_session(sessions@, id@, c);
                assert(c == k) by {
                    if c < k {
                        assert(sessions@[c].id@ != id@);
                    } else if c > k {
                        assert(sessions@[k as int].id@ != id@);
                    }
                }
            }
            return Some(k);
        }
        k = k + 1;
    }
    None
}

/// A command is admitted unless the existing Session it occupies has an active Run.
pub open spec fn admitted(sessions: Seq<SessionRecord>, command: SessionCommand) -> bool {
    match command_session_of(command) {
        None => true,
        Some(id) => !(exists|c: int| first_session(sessions, id, c)) || sessions[choose|c: int|
            first_session(sessions, id, c)].active_run_id.is_none(),
    }
}

/// Refuses a command whose Session is busy (see `admitted`).
pub fn check_session_admission(sessions: &Vec<SessionRecord>, command: &SessionCommand) -> (result:
    Result<(), ControlError>)
    ensures
        admitted(sessions@, *command) ==> result is Ok,
        !admitted(sessions@, *command) ==> (result matches Err(e) && is_error(
            e,
            busy_error().0,
            busy_error().1,
            busy_error().2,
        )),
{
    match command_session(command) {
        None => Ok(()),
        Some(id) => match find_session(sessions, id) {
            None => Ok(()),
            Some(k) => ensure_idle(&sessions[k]),
        },
    }
}

/// The error of an unknown Session.
pub open spec fn session_not_found_error() -> (ErrorCode, Seq<char>, bool) {
    (ErrorCode::SessionNotFound, "session not found"@, false)
}

/// The Project whose workspace a Session command writes: the one it names
/// when it creates, forks or derives a Session (a derivation's source must
/// exist), the Session's own when it sends a message, none otherwise.
pub open spec fn command_project(sessions: Seq<SessionRecord>, command: SessionCommand) -> Outcome<
    Option<Seq<char>>,
> {
    match command {
        SessionCommand::CreateSession { project_id, .. } => Ok(Some(project_id@)),
        SessionCommand::ForkSession { project_id, .. } => Ok(Some(project_id@)),
        SessionCommand::DeriveSession { project_id, source_session_id, .. } => if exists|c: int|
            first_session(sessions, source_session_id@, c) {
            Ok(Some(project_id@))
        } else {
            Err(session_not_found_error())
        },
        SessionCommand::SendMessage { session_id } => if exists|c: int|
            first_session(sessions, session_id@, c) {
            Ok(Some(sessions[choose|c: int| first_session(sessions, session_id@, c)].project_id@))
        } else {
            Err(session_not_found_error())
        },
        _ => Ok(None),
    }
}

/// The Project whose workspace a Session command writes (see `command_project`).
pub fn session_command_project_id<'a>(
    sessions: &'a Vec<SessionRecord>,
    command: &'a SessionCommand,
) -> (result: Result<Option<&'a str>, ControlError>)
    ensures
        match (result, command_project(sessions@, *command)) {
            (Ok(Some(p)), Ok(Some(q))) => p@ == q,
            (Ok(None), Ok(None)) => true,
            (Err(e), Err(spec)) => is_error(e, spec.0, spec.1, spec.2),
            _ => false,
        },
{
    match command {
        SessionCommand::CreateSession { project_id, .. } => Ok(Some(project_id.as_str())),
        SessionCommand::ForkSession { project_id, .. } => Ok(Some(project_id.as_str())),
        SessionCommand::DeriveSession { project_id, source_session_id, .. } => {
            match find_session(sessions, source_session_id.as_str()) {
                Some(_) => Ok(Some(project_id.as_str())),
                None => Err(control_error(ErrorCode::SessionNotFound, "session not found", false)),
            }
        },
        SessionCommand::SendMessage { session_id } => match find_session(sessions, session_id.as_str()) {
            Some(k) => Ok(Some(sessions[k].project_id.as_str())),
            None => Err(control_error(ErrorCode::SessionNotFound, "session not found", false)),
        },
        _ => Ok(None),
    }
}

/// The Session leases a command takes, given the Sessions whose leases are
/// live: none for a command without a Session; refused when its Session is
/// leased; otherwise its Session, and for a derivation the source Session
/// too when that is another Session that nobody holds (the source is then
/// locked for the derivation).
pub open spec fn lease_plan(command: SessionCommand, live: Seq<Seq<char>>) -> Outcome<
    (Seq<Seq<char>>, bool),
> {
    match command_session_of(command) {
        None => Ok((Seq::empty(), false)),
        Some(id) => if live.contains(id) {
            Err(busy_error())
        } else {
            match command {
                SessionCommand::DeriveSession { source_session_id, .. } => if source_session_id@
                    == id || live.contains(source_session_id@) {
                    Ok((seq![id], false))
                } else {
                    Ok((seq![id, source_session_id@], true))
                },
                _ => Ok((seq![id], false)),
            }
        },
    }
}


/// The Sessions a command must lease, and whether a derivation's source is
/// locked with it (see `lease_plan`); `live` lists the Sessions whose
/// leases are held.
pub fn plan_session_leases(command: &SessionCommand, live: &Vec<String>) -> (result: Result<
    (Vec<String>, bool),
    ControlError,
>)
    ensures
        match (result, lease_plan(*command, crate::text::texts(live@))) {
            (Ok((ids, locked)), Ok((spec_ids, spec_locked))) => crate::text::texts(ids@) == spec_ids
                && locked == spec_locked,
            (Err(e), Err(spec)) => is_error(e, spec.0, spec.1, spec.2),
            _ => false,
        },
{
    let id = match command_session(command) {
        None => {
            let ids: Vec<String> = Vec::new();
            proof {
                assert(crate::text::texts(ids@) =~= Seq::<Seq<char>>::empty());
            }
            return Ok((ids, false));
        },
        Some(id) => id,
    };
    if text_list_contains(live, id) {
        return Err(busy());
    }
    let mut ids: Vec<String> = Vec::new();
    ids.push(String::from_str(id));
    let locked = match command {
        SessionCommand::DeriveSession { source_session_id, .. } => {
            if str_equals(source_session_id.as_str(), id) || text_list_contains(
                live,
                source_session_id.as_str(),
            ) {
                false
            } else {
                ids.push(source_session_id.clone());
                true
            }
        },
        _ => false,
    };
    proof {
        if locked {
            assert(crate::text::texts(ids@) =~= seq![id@, ids@[1]@]);
        } else {
            assert(crate::text::texts(ids@) =~= seq![id@]);
        }
    }
    Ok((ids, locked))
}

/// The Session leases a command holds while it runs.
#[derive(Debug)]
pub struct SessionAdmission {
    leases: Vec<(String, Arc<()>)>,
    derive_source_locked: bool,
}

impl SessionAdmission {
    /// The Sessions leased.
    pub closed spec fn leased(&self) -> Seq<Seq<char>> {
        self.leases@.map_values(|l: (String, Arc<()>)| l.0@)
    }

    /// The locked-source flag of the admission.
    pub closed spec fn source_locked(&self) -> bool {
        self.derive_source_locked
    }

    /// An admission holding `leases`.
    pub fn new(leases: Vec<(String, Arc<()>)>, derive_source_locked: bool) -> (a: Self)
        ensures
            a.leased() == leases@.map_values(|l: (String, Arc<()>)| l.0@),
            a.source_locked() == derive_source_locked,
    {
        SessionAdmission { leases, derive_source_locked }
    }

    /// Whether a derivation also holds its source Session.
    pub fn derive_source_locked(&self) -> (locked: bool)
        ensures
            locked == self.source_locked(),
    {
        self.derive_source_locked
    }

    /// Keeps only the leases of `session_id`, in order, releasing the others.
    pub fn retain_for_session(&mut self, session_id: &str)
        ensures
            final(self).leased() == old(self).leased().filter(|id: Seq<char>| id == session_id@),
            final(self).source_locked() == old(self).source_locked(),
    {
        let ghost start = self.leased();
        let mut old_leases: Vec<(String, Arc<()>)> = Vec::new();
        std::mem::swap(&mut old_leases, &mut self.leases);
        let ghost names = old_leases@.map_values(|l: (String, Arc<()>)| l.0@);
        let mut kept: Vec<(String, Arc<()>)> = Vec::new();
        let mut i: usize = 0;
        let mut rest = old_leases;
        proof {
            assert(names == start);
        }
        while i < rest.len()
            invariant
                i <= rest@.len(),
                rest@.map_values(|l: (String, Arc<()>)| l.0@) == names,
                kept@.map_values(|l: (String, Arc<()>)| l.0@) == names.take(i as int).filter(
                    |id: Seq<char>| id == session_id@,
                ),
            decreases rest.len() - i,
        {
            proof {
                assert(names.take(i + 1) =~= names.take(i as int).push(names[i as int]));
                names.take(i as int).lemma_filter_push(names[i as int], |id: Seq<char>| id == session_id@);
            }
            if str_equals(rest[i].0.as_str(), session_id) {
                let entry = (rest[i].0.clone(), rest[i].1.clone());
                let ghost before = kept@;
                kept.push(entry);
                proof {
                    assert(kept@.map_values(|l: (String, Arc<()>)| l.0@) =~= before.map_values(
                        |l: (String, Arc<()>)| l.0@,
                    ).push(names[i as int]));
                }
            }
            i = i + 1;
        }
        proof {
            assert(names.take(rest@.len() as int) =~= names);
        }
        self.leases = kept;
    }
}

/// `split_whitespace().join(" ")` of a prefix: the words so far separated by
/// single spaces, and whether white space follows the last word.
pub open spec fn collapse_state(s: Seq<char>) -> (Seq<char>, bool)
    decreases s.len(),
{
    if s.len() == 0 {
        (Seq::empty(), false)
    } else {
        let (out, gap) = collapse_state(s.drop_last());
        let c = s.last();
        if is_whitespace_char(c) {
            (out, out.len() > 0)
        } else if gap {
            (out + seq![' ', c], false)
        } else {
            (out.push(c), false)
        }
    }
}

/// The words of `s` separated by single spaces.
pub open spec fn collapse_whitespace(s: Seq<char>) -> Seq<char> {
    collapse_state(s).0
}

/// `s.split_whitespace().collect::<Vec<_>>().join(" ")`.
pub fn collapse_whitespace_str(s: &str) -> (out: String)
    ensures
        out@ == collapse_whitespace(s@),
{
    let chars = chars_of(s);
    let mut out = String::new();
    let mut gap = false;
    let mut i: usize = 0;
    while i < chars.len()
        invariant
            i <= chars@.len(),
            chars@ == s@,
            (out@, gap) == collapse_state(s@.take(i as int)),
        decreases chars.len() - i,
    {
        proof {
            assert(s@.take(i + 1).drop_last() =~= s@.take(i as int));
            assert(s@.take(i + 1).last() == chars@[i as int]);
        }
        let c = chars[i];
        if is_whitespace(c) {
            gap = !out.as_str().is_empty();
        } else {
            if gap {
                let ghost before = out@;
                crate::text::push_char(&mut out, ' ');
                crate::text::push_char(&mut out, c);
                proof {
                    assert(out@ =~= before + seq![' ', c]);
                }
            } else {
                crate::text::push_char(&mut out, c);
            }
            gap = false;
        }
        i = i + 1;
    }
    proof {
        assert(s@.take(chars@.len() as int) =~= s@);
    }
    out
}

/// Upper bound of a Session name, in characters.
pub const MAX_SESSION_NAME_CHARS: usize = 100;

/// Upper bound of a temporary Session title, in characters.
pub const MAX_TEMPORARY_TITLE_CHARS: usize = 60;

/// What renaming a Session does (see `rename_session`).
pub open spec fn session_renamed(
    old_sessions: Vec<SessionRecord>,
    new_sessions: Vec<SessionRecord>,
    session_id: Seq<char>,
    name: Seq<char>,
    result: Result<usize, ControlError>,
) -> bool {
    ({
        let collapsed = collapse_whitespace(name);
        if collapsed.len() > MAX_SESSION_NAME_CHARS {
            result matches Err(e) && is_error(
                e,
                ErrorCode::InvalidSession,
                "Session name must be at most 100 characters"@,
                false,
            ) && new_sessions@ == old_sessions@
        } else if !(exists|c: int| first_session(old_sessions@, session_id, c)) {
            result matches Err(e) && is_error(
                e,
                session_not_found_error().0,
                session_not_found_error().1,
                session_not_found_error().2,
            ) && new_sessions@ == old_sessions@
        } else {
            result matches Ok(k) && first_session(old_sessions@, session_id, k as int)
                && new_sessions@ == old_sessions@.update(
                k as int,
                SessionRecord { name: new_sessions@[k as int].name, ..old_sessions@[k as int] },
            ) && new_sessions@[k as int].name@ == collapsed
        }
    })
}

/// Renames a Session: the name's white space is collapsed, and it may hold
/// at most `MAX_SESSION_NAME_CHARS` characters. Returns the Session's position.
pub fn rename_session(sessions: &mut Vec<SessionRecord>, session_id: &str, name: &str) -> (result:
    Result<usize, ControlError>)
    ensures
        session_renamed(
            *old(sessions),
            *final(sessions),
            session_id@,
            name@,
            result,
        ),
{
    let collapsed = collapse_whitespace_str(name);
    let count = chars_of(collapsed.as_str()).len();
    if count > MAX_SESSION_NAME_CHARS {
        return Err(
            control_error(
                ErrorCode::InvalidSession,
                "Session name must be at most 100 characters",
                false,
            ),
        );
    }
    let k = match find_session(sessions, session_id) {
        Some(k) => k,
        None => return Err(control_error(ErrorCode::SessionNotFound, "session not found", false)),
    };
    sessions[k].name = collapsed;
    proof {
        assert(sessions@ =~= old(sessions)@.update(
            k as int,
            SessionRecord { name: sessions@[k as int].name, ..old(sessions)@[k as int] },
        ));
    }
    Ok(k)
}

/// What setting a temporary Session title does (see `set_session_title`).
pub open spec fn session_titled(
    old_sessions: Vec<SessionRecord>,
    new_sessions: Vec<SessionRecord>,
    session_id: Seq<char>,
    title: Seq<char>,
    result: Result<usize, ControlError>,
) -> bool {
    ({
        let collapsed = collapse_whitespace(title);
        if collapsed.len() == 0 || collapsed.len() > MAX_TEMPORARY_TITLE_CHARS {
            result matches Err(e) && is_error(
                e,
                ErrorCode::InvalidSession,
                "Temporary Session title must contain 1 to 60 characters"@,
                false,
            ) && new_sessions@ == old_sessions@
        } else if !(exists|c: int| first_session(old_sessions@, session_id, c)) {
            result matches Err(e) && is_error(
                e,
                session_not_found_error().0,
                session_not_found_error().1,
                session_not_found_error().2,
            ) && new_sessions@ == old_sessions@
        } else {
            result matches Ok(k) && first_session(old_sessions@, session_id, k as int) && if old_sessions@[k as int].title_generation_started {
                new_sessions@ == old_sessions@
            } else {
                new_sessions@ == old_sessions@.update(
                    k as int,
                    SessionRecord {
                        title: new_sessions@[k as int].title,
                        ..old_sessions@[k as int]
                    },
                ) && (new_sessions@[k as int].title matches Some(t) && t@ == collapsed)
            }
        }
    })
}

/// Sets a temporary Session title: white space is collapsed and the title
/// must hold 1 to `MAX_TEMPORARY_TITLE_CHARS` characters; a Session whose
/// title is being generated keeps its title. Returns the Session's position.
pub fn set_session_title(sessions: &mut Vec<SessionRecord>, session_id: &str, title: &str) -> (result:
    Result<usize, ControlError>)
    ensures
        session_titled(
            *old(sessions),
            *final(sessions),
            session_id@,
            title@,
            result,
        ),
{
    let collapsed = collapse_whitespace_str(title);
    let count = chars_of(collapsed.as_str()).len();
    if count == 0 || count > MAX_TEMPORARY_TITLE_CHARS {
        return Err(
            control_error(
                ErrorCode::InvalidSession,
                "Temporary Session title must contain 1 to 60 characters",
                false,
            ),
        );
    }
    let k = match find_session(sessions, session_id) {
        Some(k) => k,
        None => return Err(control_error(ErrorCode::SessionNotFound, "session not found", false)),
    };
    if !sessions[k].title_generation_started {
        sessions[k].title = Some(collapsed);
        proof {
            assert(sessions@ =~= old(sessions)@.update(
                k as int,
                SessionRecord { title: sessions@[k as int].title, ..old(sessions)@[k as int] },
            ));
        }
    }
    Ok(k)
}

/// Archives or restores a Session; a Session with an active Run cannot be
/// archived. Returns the Session's position and whether anything changed.
pub fn set_session_archived(sessions: &mut Vec<SessionRecord>, session_id: &str, archived: bool) -> (result:
    Result<(usize, bool), ControlError>)
    ensures
        match result {
            Err(e) => final(sessions)@ == old(sessions)@ && (!(exists|c: int|
                first_session(old(sessions)@, session_id@, c)) && is_error(
                e,
                session_not_found_error().0,
                session_not_found_error().1,
                session_not_found_error().2,
            ) || exists|c: int|
                first_session(old(sessions)@, session_id@, c) && archived && old(
                    sessions,
                )@[c].active_run_id.is_some() && is_error(
                    e,
                    ErrorCode::SessionBusy,
                    "session already has an active run"@,
                    false,
                )),
            Ok((k, changed)) => {
                let before = old(sessions)@[k as int];
                &&& first_session(old(sessions)@, session_id@, k as int)
                &&& !(archived && before.active_run_id.is_some())
                &&& changed == (before.archived != archived)
                &&& final(sessions)@ == old(sessions)@.update(
                    k as int,
                    SessionRecord { archived, ..before },
                )
            },
        },
{
    let k = match find_session(sessions, session_id) {
        Some(k) => k,
        None => return Err(control_error(ErrorCode::SessionNotFound, "session not found", false)),
    };
    if archived && sessions[k].active_run_id.is_some() {
        return Err(control_error(ErrorCode::SessionBusy, "session already has an active run", false));
    }
    if sessions[k].archived == archived {
        proof {
            assert(old(sessions)@.update(k as int, SessionRecord { archived, ..old(sessions)@[k as int] })
                =~= old(sessions)@);
        }
        return Ok((k, false));
    }
    sessions[k].archived = archived;
    proof {
        assert(sessions@ =~= old(sessions)@.update(
            k as int,
            SessionRecord { archived, ..old(sessions)@[k as int] },
        ));
    }
    Ok((k, true))
}

} // verus!
