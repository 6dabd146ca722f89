//! Generated Session titles: when one is asked for, when it starts, and
//! where it lands.
use vstd::prelude::*;
use crate::conversation::{first_completed_interaction, is_first_completed_interaction, MessageRecord};
use crate::errors::{control_error, is_error, ControlError, ErrorCode, Outcome};
use crate::resolution::{find_project, first_project, has_project};
use crate::runs::{SessionRecord, WorkingSet};
use crate::sessions::{find_session, first_session};
use crate::text::{chars_of, is_blank, is_blank_str, push_char};

use crate::events::{event_of, event_views, push_event, EventKind, PendingEvent};

verus! {

/// The most characters of a user prompt a title request carries.
pub const MAX_TITLE_PROMPT_CHARS: usize = 2000;

/// The prompt a title is generated from: the first characters of the user's
/// prompt, up to `MAX_TITLE_PROMPT_CHARS`.
pub open spec fn bounded_prompt(prompt: Seq<char>) -> Seq<char> {
    if prompt.len() <= MAX_TITLE_PROMPT_CHARS {
        prompt
    } else {
        prompt.take(MAX_TITLE_PROMPT_CHARS as int)
    }
}

/// The prompt of a title request (see `bounded_prompt`); a blank one is
/// refused.
pub fn title_prompt(user_prompt: &str) -> (result: Result<String, ControlError>)
    ensures
        match result {
            Ok(p) => p@ == bounded_prompt(user_prompt@) && !is_blank(p@),
            Err(e) => is_blank(bounded_prompt(user_prompt@)) && is_error(
                e,
                ErrorCode::InvalidSession,
                "Session title prompt is empty"@,
                false,
            ),
        },
{
    let chars = chars_of(user_prompt);
    let n = if chars.len() <= MAX_TITLE_PROMPT_CHARS {
        chars.len()
    } else {
        MAX_TITLE_PROMPT_CHARS
    };
    let mut prompt = String::new();
    let mut i: usize = 0;
    while i < n
        invariant
            i <= n <= chars@.len(),
            chars@ == user_prompt@,
            prompt@ == chars@.take(i as int),
        decreases n - i,
    {
        push_char(&mut prompt, chars[i]);
        proof {
            assert(chars@.take(i + 1) =~= chars@.take(i as int).push(chars@[i as int]));
        }
        i = i + 1;
    }
    proof {
        assert(prompt@ =~= bounded_prompt(user_prompt@));
    }
    if is_blank_str(prompt.as_str()) {
        return Err(control_error(ErrorCode::InvalidSession, "Session title prompt is empty", false));
    }
    Ok(prompt)
}

/// What starting title generation finds for Session `session_id`: the
/// Session and its Project must exist; a Session that already started one or
/// that the user named is left alone (no generation); otherwise it must have
/// just finished its first interaction (see `first_completed_interaction`).
/// On success, the positions of the Session and of its Project, and whether
/// to generate.
pub open spec fn title_start_check(
    state: WorkingSet,
    messages: Seq<MessageRecord>,
    session_id: Seq<char>,
) -> Outcome<(int, int, bool)> {
    if !(exists|c: int| first_session(state.sessions@, session_id, c)) {
        Err((ErrorCode::SessionNotFound, "session not found"@, false))
    } else {
        let s = choose|c: int| first_session(state.sessions@, session_id, c);
        let session = state.sessions@[s];
        if !has_project(state.projects@, session.project_id@) {
            Err((ErrorCode::InvalidProject, "project not found"@, false))
        } else {
            let p = choose|c: int| first_project(state.projects@, session.project_id@, c);
            if session.title_generation_started || !is_blank(session.name@) {
                Ok((s, p, false))
            } else if !first_completed_interaction(messages, state.runs@, session) {
                Err((ErrorCode::InvalidSession, "Session has not completed its first interaction"@, false))
            } else {
                Ok((s, p, true))
            }
        }
    }
}

/// Where a title is generated and whether it is: the Session's position,
/// its Project's work tree, and the decision.
#[derive(Debug)]
pub struct TitleStart {
    pub session: usize,
    pub workdir: String,
    pub generate: bool,
}

/// Starts title generation for a Session (see `title_start_check`): when a
/// title is to be generated, the Session records that it started one;
/// nothing else changes.
pub fn begin_title_generation(
    state: &mut WorkingSet,
    messages: &Vec<MessageRecord>,
    session_id: &str,
    outbox: &mut Vec<PendingEvent>,
) -> (result: Result<TitleStart, ControlError>)
    ensures
        event_views(final(outbox)@) == event_views(old(outbox)@) + if result matches Ok(start)
            && start.generate {
            seq![event_of(EventKind::SessionTitleGenerationStarted, Some(session_id@))]
        } else {
            Seq::empty()
        },
        match (result, title_start_check(*old(state), messages@, session_id@)) {
            (Ok(start), Ok((s, p, generate))) => {
                &&& start.session == s
                &&& start.workdir@ == old(state).projects@[p].workdir@
                &&& start.generate == generate
                &&& if generate {
                    final(state).sessions@ == old(state).sessions@.update(
                        s,
                        SessionRecord { title_generation_started: true, ..old(state).sessions@[s] },
                    )
                } else {
                    final(state).sessions@ == old(state).sessions@
                }
                &&& final(state).projects == old(state).projects
                &&& final(state).runs == old(state).runs
                &&& final(state).journals == old(state).journals
            },
            (Err(e), Err(spec)) => is_error(e, spec.0, spec.1, spec.2) && *final(state) == *old(state),
            _ => false,
        },
{
    let s = match find_session(&state.sessions, session_id) {
        Some(s) => s,
        None => return Err(control_error(ErrorCode::SessionNotFound, "session not found", false)),
    };
    let p = match find_project(&state.projects, state.sessions[s].project_id.as_str()) {
        Some(p) => p,
        None => return Err(control_error(ErrorCode::InvalidProject, "project not found", false)),
    };
    let workdir = state.projects[p].workdir.clone();
    if state.sessions[s].title_generation_started || !is_blank_str(state.sessions[s].name.as_str()) {
        proof {
            assert(event_views(outbox@) =~= event_views(old(outbox)@) + Seq::<(Seq<char>, Option<Seq<char>>)>::empty());
        }
        return Ok(TitleStart { session: s, workdir, generate: false });
    }
    if !is_first_completed_interaction(messages, &state.runs, &state.sessions[s]) {
        return Err(
            control_error(
                ErrorCode::InvalidSession,
                "Session has not completed its first interaction",
                false,
            ),
        );
    }
    let ghost before = state.sessions@;
    state.sessions[s].title_generation_started = true;
    proof {
        assert(state.sessions@ =~= before.update(
            s as int,
            SessionRecord { title_generation_started: true, ..before[s as int] },
        ));
    }
    push_event(outbox, EventKind::SessionTitleGenerationStarted, Some(String::from_str(session_id)));
    Ok(TitleStart { session: s, workdir, generate: true })
}

/// Records a generated title and description on Session `session_id` (the
/// first with the id); a missing Session is refused.
pub fn finish_title_generation(
    sessions: &mut Vec<SessionRecord>,
    session_id: &str,
    title: String,
    description: String,
    outbox: &mut Vec<PendingEvent>,
) -> (result: Result<usize, ControlError>)
    ensures
        event_views(final(outbox)@) == event_views(old(outbox)@) + if result is Ok {
            seq![event_of(EventKind::SessionTitleGenerated, Some(session_id@))]
        } else {
            Seq::empty()
        },
        match result {
            Ok(s) => first_session(old(sessions)@, session_id@, s as int) && final(sessions)@ == old(
                sessions,
            )@.update(
                s as int,
                SessionRecord { title: Some(title), description, ..old(sessions)@[s as int] },
            ),
            Err(e) => !(exists|c: int| first_session(old(sessions)@, session_id@, c)) && is_error(
                e,
                ErrorCode::SessionNotFound,
                "session not found"@,
                false,
            ) && final(sessions)@ == old(sessions)@,
        },
{
    let s = match find_session(sessions, session_id) {
        Some(s) => s,
        None => return Err(control_error(ErrorCode::SessionNotFound, "session not found", false)),
    };
    let ghost before = sessions@;
    sessions[s].title = Some(title);
    sessions[s].description = description;
    proof {
        assert(sessions@ =~= before.update(
            s as int,
            SessionRecord { title: Some(title), description, ..before[s as int] },
        ));
    }
    push_event(outbox, EventKind::SessionTitleGenerated, Some(String::from_str(session_id)));
    Ok(s)
}

} // verus!
