//! What a workspace agent is handed to run one Codex turn.
use vstd::prelude::*;
use crate::conversation::{
    ancestry, codex_prompt, find_message, first_message, prompt_built, MessageRecord,
};
use crate::errors::{api_domain_error, control_error, DomainError, ErrorCode, Outcome};
use crate::json::opt_view;
use crate::permissions::RunPermissionProfile;
use crate::resolution::{find_project, first_project, has_project};
use crate::runs::{ProjectRecord, RunRecord};

verus! {

/// The inputs of one Codex turn of a Run (the host adds the approval,
/// cancellation and integration channels).
#[derive(Debug)]
pub struct WorkspaceInvocation {
    pub request_id: String,
    pub model: String,
    pub reasoning_effort: Option<String>,
    pub project_instructions: Option<String>,
    pub prompt: String,
    /// The user's text, used as the commit subject.
    pub commit_subject: String,
    /// The Project's work tree.
    pub cwd: String,
    pub baseline_commit: String,
    pub baseline_index_tree: String,
    pub permission_profile: RunPermissionProfile,
}

/// The checks of preparing a Run's turn, in order: its Project exists, its
/// input Message exists with text, a Git baseline commit is known (the
/// Run's own, else the input Message's) and the Run has an index baseline.
/// On success, the positions of the Project and of the input Message.
pub open spec fn invocation_check(
    projects: Seq<ProjectRecord>,
    messages: Seq<MessageRecord>,
    run: RunRecord,
) -> Outcome<(int, int)> {
    if !has_project(projects, run.project_id@) {
        Err((ErrorCode::InvalidProject, "project not found"@, false))
    } else if !(exists|c: int| first_message(messages, run.base_message_id@, c)) || messages[choose|c: int|
        first_message(messages, run.base_message_id@, c)].text.is_none() {
        Err((ErrorCode::MessageNotFound, "run input not found"@, false))
    } else {
        let m = choose|c: int| first_message(messages, run.base_message_id@, c);
        if run.workspace_base_commit.is_none() && messages[m].git_commit.is_none() {
            Err((ErrorCode::ProjectGitHeadUnavailable, "Codex Run has no authorized Git baseline"@, false))
        } else if run.workspace_base_index_tree.is_none() {
            Err(
                (
                    ErrorCode::ProjectGitHeadUnavailable,
                    "Codex Run has no authorized Git index baseline"@,
                    false,
                ),
            )
        } else {
            Ok((choose|c: int| first_project(projects, run.project_id@, c), m))
        }
    }
}

/// A domain failure with this code, message and retry flag, and no details.
pub open spec fn is_failure(e: DomainError, spec: (ErrorCode, Seq<char>, bool)) -> bool {
    e.code == spec.0 && e.message@ == spec.1 && e.retryable == spec.2 && e.details.is_none()
        && e.cause_id.is_none()
}

fn failure(code: ErrorCode, message: &str) -> (e: DomainError)
    ensures
        is_failure(e, (code, message@, false)),
{
    api_domain_error(control_error(code, message, false))
}

/// Prepares the inputs of a Run's Codex turn (see `invocation_check`): the
/// Run's id, model and reasoning effort, the prompt and instructions of its
/// input Message's path (see `prompt_built`), the input text as commit
/// subject, the Project's work tree, the Git baselines and the Run's
/// permission snapshot.
pub fn workspace_invocation(
    projects: &Vec<ProjectRecord>,
    messages: &Vec<MessageRecord>,
    run: &RunRecord,
) -> (result: Result<WorkspaceInvocation, DomainError>)
    requires
        messages@.len() < usize::MAX,
        !(ancestry(messages@, run.base_message_id@, (messages@.len() + 1) as nat) is Endless),
    ensures
        match (result, invocation_check(projects@, messages@, *run)) {
            (Ok(inv), Ok((p, m))) => {
                &&& inv.request_id@ == run.id@
                &&& inv.model@ == run.config.model@
                &&& opt_view(inv.reasoning_effort) == opt_view(run.config.reasoning_effort)
                &&& prompt_built(messages, run.base_message_id@, Ok((inv.project_instructions, inv.prompt)))
                &&& Some(inv.commit_subject@) == opt_view(messages@[m].text)
                &&& inv.cwd@ == projects@[p].workdir@
                &&& Some(inv.baseline_commit@) == (if run.workspace_base_commit.is_some() {
                    opt_view(run.workspace_base_commit)
                } else {
                    opt_view(messages@[m].git_commit)
                })
                &&& Some(inv.baseline_index_tree@) == opt_view(run.workspace_base_index_tree)
                &&& inv.permission_profile == run.permission_profile
            },
            (Err(e), Err(spec)) => is_failure(e, spec),
            (Err(e), Ok(_)) => is_failure(e, (ErrorCode::MessageNotFound, "message path is incomplete"@, false))
                && ancestry(messages@, run.base_message_id@, (messages@.len() + 1) as nat) is Missing,
            _ => false,
        },
{
    let p = match find_project(projects, run.project_id.as_str()) {
        Some(p) => p,
        None => return Err(failure(ErrorCode::InvalidProject, "project not found")),
    };
    let m = match find_message(messages, run.base_message_id.as_str()) {
        Some(m) => m,
        None => return Err(failure(ErrorCode::MessageNotFound, "run input not found")),
    };
    let commit_subject = match &messages[m].text {
        Some(t) => t.clone(),
        None => return Err(failure(ErrorCode::MessageNotFound, "run input not found")),
    };
    let baseline_commit = match &run.workspace_base_commit {
        Some(c) => c.clone(),
        None => match &messages[m].git_commit {
            Some(c) => c.clone(),
            None => {
                return Err(failure(ErrorCode::ProjectGitHeadUnavailable, "Codex Run has no authorized Git baseline"));
            },
        },
    };
    let baseline_index_tree = match &run.workspace_base_index_tree {
        Some(t) => t.clone(),
        None => {
            return Err(
                failure(ErrorCode::ProjectGitHeadUnavailable, "Codex Run has no authorized Git index baseline"),
            );
        },
    };
    let (project_instructions, prompt) = match codex_prompt(messages, run.base_message_id.as_str()) {
        Ok(built) => built,
        Err(e) => return Err(api_domain_error(e)),
    };
    let reasoning_effort = match &run.config.reasoning_effort {
        Some(e) => Some(e.clone()),
        None => None,
    };
    Ok(
        WorkspaceInvocation {
            request_id: run.id.clone(),
            model: run.config.model.clone(),
            reasoning_effort,
            project_instructions,
            prompt,
            commit_subject,
            cwd: projects[p].workdir.clone(),
            baseline_commit,
            baseline_index_tree,
            permission_profile: run.permission_profile,
        },
    )
}

} // verus!
