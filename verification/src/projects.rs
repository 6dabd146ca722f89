//! Registered Projects: registration and the default Agent preset.
use vstd::prelude::*;
use crate::catalog::{named_agent_check, require_named_agent, AgentRecord};
use crate::clock::now;
use crate::conversation::{new_uuid, MessageRecord};
use crate::errors::{control_error, is_error, ControlError, ErrorCode, Outcome};
use crate::json::opt_view;
use crate::resolution::{find_project, first_project, has_project};
use crate::runs::ProjectRecord;
use crate::sessions::{trim_text, trimmed};
use crate::text::{chars_of, is_blank, is_blank_str, str_equals};

verus! {

/// The checks of registering a Project, in order: the id and the name must
/// not be blank, the id must be unused, and a repository URL, when given,
/// must not be blank. On success, the trimmed repository URL.
pub open spec fn registration_check(
    projects: Seq<ProjectRecord>,
    id: Seq<char>,
    name: Seq<char>,
    repo_url: Option<Seq<char>>,
) -> Outcome<Option<Seq<char>>> {
    if is_blank(id) || is_blank(name) {
        Err((ErrorCode::InvalidProject, "project id and name are required"@, false))
    } else if has_project(projects, id) {
        Err((ErrorCode::InvalidProject, "project id already exists"@, false))
    } else {
        match repo_url {
            None => Ok(None),
            Some(url) => if trimmed(url).len() == 0 {
                Err((ErrorCode::InvalidProject, "repository URL cannot be empty"@, false))
            } else {
                Ok(Some(trimmed(url)))
            },
        }
    }
}

/// Some Project is registered at `workdir`.
pub open spec fn workdir_registered(projects: Seq<ProjectRecord>, workdir: Seq<char>) -> bool {
    exists|k: int| 0 <= k < projects.len() && projects[k].workdir@ == workdir
}

/// Checks a Project registration before its directory is inspected (see
/// `registration_check`); returns the trimmed repository URL.
pub fn validate_project_registration(
    projects: &Vec<ProjectRecord>,
    id: &str,
    name: &str,
    repo_url: &Option<String>,
) -> (result: Result<Option<String>, ControlError>)
    ensures
        match (result, registration_check(projects@, id@, name@, opt_view(*repo_url))) {
            (Ok(url), Ok(spec)) => opt_view(url) == spec,
            (Err(e), Err(spec)) => is_error(e, spec.0, spec.1, spec.2),
            _ => false,
        },
{
    if is_blank_str(id) || is_blank_str(name) {
        return Err(control_error(ErrorCode::InvalidProject, "project id and name are required", false));
    }
    match find_project(projects, id) {
        Some(_) => return Err(control_error(ErrorCode::InvalidProject, "project id already exists", false)),
        None => {},
    }
    match repo_url {
        None => Ok(None),
        Some(url) => {
            let t = trim_text(url.as_str());
            if chars_of(t.as_str()).len() == 0 {
                Err(control_error(ErrorCode::InvalidProject, "repository URL cannot be empty", false))
            } else {
                Ok(Some(t))
            }
        },
    }
}

/// Whether some Project is registered at `workdir`.
pub fn has_workdir(projects: &Vec<ProjectRecord>, workdir: &str) -> (found: bool)
    ensures
        found == workdir_registered(projects@, workdir@),
{
    let mut k: usize = 0;
    while k < projects.len()
        invariant
            k <= projects@.len(),
            forall|j: int| 0 <= j < k ==> (#[trigger] projects@[j]).workdir@ != workdir@,
        decreases projects.len() - k,
    {
        if str_equals(projects[k].workdir.as_str(), workdir) {
            return true;
        }
        k = k + 1;
    }
    false
}

/// What registering a Project does (see `register_project`).
pub open spec fn project_registered(
    old_projects: Vec<ProjectRecord>,
    new_projects: Vec<ProjectRecord>,
    old_messages: Vec<MessageRecord>,
    new_messages: Vec<MessageRecord>,
    id: String,
    name: String,
    workdir: String,
    base_commit: String,
    repo_url: Option<String>,
    result: Result<usize, ControlError>,
) -> bool {
    match result {
        Ok(k) => {
            let project = new_projects@[k as int];
            let root = new_messages@.last();
            &&& registration_check(old_projects@, id@, name@, opt_view(repo_url)) matches Ok(url)
                && opt_view(project.repo_url) == url
            &&& !workdir_registered(old_projects@, workdir@)
            &&& k == old_projects@.len()
            &&& new_projects@ == old_projects@.push(project)
            &&& project.id == id
            &&& project.name == name
            &&& project.workdir == workdir
            &&& project.base_commit == base_commit
            &&& project.root_message_id@ == root.id@
            &&& project.default_agent_id.is_none()
            &&& project.revision == 1
            &&& new_messages@ == old_messages@.push(root)
            &&& root.project_id@ == id@
            &&& root.parent_message_id.is_none()
            &&& root.role@ == "system"@
            &&& root.kind@ == "standard"@
            &&& opt_view(root.text) == Some("AIT project instructions"@)
            &&& root.git_commit.is_none()
            &&& root.data.is_none()
            &&& root.created_at >= 0
        },
        Err(e) => new_projects@ == old_projects@ && new_messages@ == old_messages@ && match registration_check(
            old_projects@,
            id@,
            name@,
            opt_view(repo_url),
        ) {
            Err(spec) => is_error(e, spec.0, spec.1, spec.2),
            Ok(_) => workdir_registered(old_projects@, workdir@) && is_error(
                e,
                ErrorCode::ProjectPathAlreadyRegistered,
                "project path is already registered"@,
                false,
            ),
        },
    }
}

/// Registers a Project whose canonical Git work tree is `workdir` and whose
/// HEAD is `base_commit`: after the checks of `registration_check`, the work
/// tree must not belong to a registered Project. A root system Message with
/// the project instructions is written, and the Project is appended at
/// revision 1 with no default Agent. Returns the Project's position. On an
/// error nothing changes.
pub fn register_project(
    projects: &mut Vec<ProjectRecord>,
    messages: &mut Vec<MessageRecord>,
    id: String,
    name: String,
    workdir: String,
    base_commit: String,
    repo_url: Option<String>,
) -> (result: Result<usize, ControlError>)
    ensures
        project_registered(
            *old(projects),
            *final(projects),
            *old(messages),
            *final(messages),
            id,
            name,
            workdir,
            base_commit,
            repo_url,
            result,
        ),
{
    let url = match validate_project_registration(projects, id.as_str(), name.as_str(), &repo_url) {
        Ok(url) => url,
        Err(e) => return Err(e),
    };
    if has_workdir(projects, workdir.as_str()) {
        return Err(
            control_error(ErrorCode::ProjectPathAlreadyRegistered, "project path is already registered", false),
        );
    }
    let root_id = new_uuid();
    messages.push(
        MessageRecord {
            id: root_id.clone(),
            project_id: id.clone(),
            parent_message_id: None,
            role: String::from_str("system"),
            kind: String::from_str("standard"),
            text: Some(String::from_str("AIT project instructions")),
            git_commit: None,
            data: None,
            created_at: now(),
        },
    );
    projects.push(
        ProjectRecord {
            id,
            name,
            workdir,
            root_message_id: root_id,
            repo_url: url,
            base_commit,
            default_agent_id: None,
            revision: 1,
        },
    );
    Ok(projects.len() - 1)
}

/// What making a named preset the default of a Project does (see `set_project_default_agent`).
pub open spec fn default_agent_set(
    old_projects: Vec<ProjectRecord>,
    new_projects: Vec<ProjectRecord>,
    agents: &Vec<AgentRecord>,
    project_id: Seq<char>,
    agent_id: Seq<char>,
    result: Result<usize, ControlError>,
) -> bool {
    match result {
        Ok(k) => {
            let project = old_projects@[k as int];
            &&& named_agent_check(agents@, agent_id) is Ok
            &&& first_project(old_projects@, project_id, k as int)
            &&& new_projects@ == old_projects@.update(
                k as int,
                ProjectRecord {
                    default_agent_id: new_projects@[k as int].default_agent_id,
                    revision: if project.revision == u64::MAX {
                        project.revision
                    } else {
                        (project.revision + 1) as u64
                    },
                    ..project
                },
            )
            &&& opt_view(new_projects@[k as int].default_agent_id) == Some(agent_id)
        },
        Err(e) => new_projects@ == old_projects@ && match named_agent_check(agents@, agent_id) {
            Err(spec) => is_error(e, spec.0, spec.1, spec.2),
            Ok(_) => !has_project(old_projects@, project_id) && is_error(
                e,
                ErrorCode::InvalidProject,
                "project not found"@,
                false,
            ),
        },
    }
}

/// Makes a named Agent preset the default of a Project: the preset must pass
/// `named_agent_check` and the Project must exist; the first Project with the
/// id records the preset and moves to its next revision (saturating). Returns
/// the Project's position. On an error nothing changes.
pub fn set_project_default_agent(
    projects: &mut Vec<ProjectRecord>,
    agents: &Vec<AgentRecord>,
    project_id: &str,
    agent_id: &str,
) -> (result: Result<usize, ControlError>)
    ensures
        default_agent_set(
            *old(projects),
            *final(projects),
            agents,
            project_id@,
            agent_id@,
            result,
        ),
{
    match require_named_agent(agents, agent_id) {
        Ok(_) => {},
        Err(e) => return Err(e),
    }
    let k = match find_project(projects, project_id) {
        Some(k) => k,
        None => return Err(control_error(ErrorCode::InvalidProject, "project not found", false)),
    };
    let ghost before = projects@;
    projects[k].default_agent_id = Some(String::from_str(agent_id));
    projects[k].revision = projects[k].revision.saturating_add(1);
    proof {
        let p = before[k as int];
        assert(projects@ =~= before.update(
            k as int,
            ProjectRecord {
                default_agent_id: projects@[k as int].default_agent_id,
                revision: if p.revision == u64::MAX {
                    p.revision
                } else {
                    (p.revision + 1) as u64
                },
                ..p
            },
        ));
    }
    Ok(k)
}

} // verus!
