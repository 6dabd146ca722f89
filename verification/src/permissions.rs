//! Run permission snapshots, administrator ceilings and native permission grants.
use vstd::prelude::*;
use crate::errors::{control_error, is_error, matches_outcome, ControlError, ErrorCode, Outcome};
use crate::settings::{setting_text, SettingsDocument};
use crate::text::{bounded_display_value, is_bounded_display_value, push_str, str_equals, texts};

verus! {

/// How far a Run may write: ordered `ReadOnly < WorkspaceWrite < FullAccess`.
#[derive(Clone, Copy, Debug, PartialEq, Eq, Structural)]
pub enum SandboxAccess {
    ReadOnly,
    WorkspaceWrite,
    FullAccess,
}

/// The position of a sandbox level in its order.
pub open spec fn sandbox_rank(s: SandboxAccess) -> int {
    match s {
        SandboxAccess::ReadOnly => 0,
        SandboxAccess::WorkspaceWrite => 1,
        SandboxAccess::FullAccess => 2,
    }
}

/// The position of a sandbox level in its order.
pub fn rank(s: SandboxAccess) -> (r: u8)
    ensures
        r == sandbox_rank(s),
{
    match s {
        SandboxAccess::ReadOnly => 0,
        SandboxAccess::WorkspaceWrite => 1,
        SandboxAccess::FullAccess => 2,
    }
}

/// The `Debug` name of a sandbox level.
pub open spec fn sandbox_name(s: SandboxAccess) -> Seq<char> {
    match s {
        SandboxAccess::ReadOnly => "ReadOnly"@,
        SandboxAccess::WorkspaceWrite => "WorkspaceWrite"@,
        SandboxAccess::FullAccess => "FullAccess"@,
    }
}

fn push_sandbox_name(text: &mut String, s: SandboxAccess)
    ensures
        final(text)@ == old(text)@ + sandbox_name(s),
{
    match s {
        SandboxAccess::ReadOnly => push_str(text, "ReadOnly"),
        SandboxAccess::WorkspaceWrite => push_str(text, "WorkspaceWrite"),
        SandboxAccess::FullAccess => push_str(text, "FullAccess"),
    }
}

/// When a Codex Run asks a human before acting.
#[derive(Clone, Copy, Debug, PartialEq, Eq, Structural)]
pub enum ApprovalMode {
    OnRequest,
    UntrustedOnly,
}

/// The permission snapshot fixed when a Run is created.
#[derive(Clone, Copy, Debug, PartialEq, Eq, Structural)]
pub struct RunPermissionProfile {
    pub sandbox: SandboxAccess,
    pub approval: ApprovalMode,
}

/// Administrator-owned ceiling applied before a Run or approval can have side effects.
#[derive(Clone, Copy, Debug, PartialEq, Eq, Structural)]
pub struct PermissionPolicyLimits {
    pub max_sandbox: SandboxAccess,
    pub allow_session_approvals: bool,
}

impl Default for PermissionPolicyLimits {
    /// No ceiling: full access, session approvals allowed.
    fn default() -> (limits: Self)
        ensures
            limits.max_sandbox == SandboxAccess::FullAccess,
            limits.allow_session_approvals,
    {
        PermissionPolicyLimits { max_sandbox: SandboxAccess::FullAccess, allow_session_approvals: true }
    }
}

/// The kind of an Agent provider.
#[derive(Clone, Copy, Debug, PartialEq, Eq, Structural)]
pub enum AgentMode {
    Codex,
    OpenAI,
    DeepSeek,
    Gemini,
    MiniMax,
    Mock,
}

/// The sandbox a `permissions.sandbox` setting names.
pub open spec fn parse_sandbox(text: Seq<char>) -> Option<SandboxAccess> {
    if text == "read_only"@ || text == "strict"@ {
        Some(SandboxAccess::ReadOnly)
    } else if text == "workspace_write"@ {
        Some(SandboxAccess::WorkspaceWrite)
    } else if text == "full_access"@ {
        Some(SandboxAccess::FullAccess)
    } else {
        None
    }
}

/// The message for a sandbox setting above the administrator limit.
pub open spec fn sandbox_limit_message(sandbox: SandboxAccess, max: SandboxAccess) -> Seq<char> {
    "Agent sandbox policy "@ + sandbox_name(sandbox) + " exceeds the administrator limit "@
        + sandbox_name(max)
}

/// The message for `permissions.approval=always`.
pub open spec fn approval_always_message() -> Seq<char> {
    "Codex app-server cannot guarantee approval for every native operation; permissions.approval=always is unsupported"@
}

/// The permission snapshot for a new Run, from the `permissions.sandbox` and
/// `permissions.approval` settings (as text, when they are strings).
pub open spec fn effective_profile(
    sandbox: Option<Seq<char>>,
    approval: Option<Seq<char>>,
    kind: AgentMode,
    limits: PermissionPolicyLimits,
) -> Outcome<RunPermissionProfile> {
    match sandbox {
        None => Err((ErrorCode::InvalidConfiguration, "Agent sandbox policy is missing"@, false)),
        Some(text) => match parse_sandbox(text) {
            None => Err((ErrorCode::InvalidConfiguration, "unsupported Agent sandbox policy"@, false)),
            Some(level) => if sandbox_rank(level) > sandbox_rank(limits.max_sandbox) {
                Err(
                    (
                        ErrorCode::InvalidConfiguration,
                        sandbox_limit_message(level, limits.max_sandbox),
                        false,
                    ),
                )
            } else if kind != AgentMode::Codex {
                Ok(RunPermissionProfile { sandbox: parse_sandbox(sandbox.unwrap()).unwrap(), approval: ApprovalMode::OnRequest })
            } else {
                match approval {
                    None => Err(
                        (ErrorCode::InvalidConfiguration, "Codex approval policy is missing"@, false),
                    ),
                    Some(mode) => if mode == "on_request"@ {
                        Ok(RunPermissionProfile { sandbox: parse_sandbox(sandbox.unwrap()).unwrap(), approval: ApprovalMode::OnRequest })
                    } else if mode == "untrusted_only"@ {
                        Ok(
                            RunPermissionProfile {
                                sandbox: level,
                                approval: ApprovalMode::UntrustedOnly,
                            },
                        )
                    } else if mode == "always"@ {
                        Err((ErrorCode::InvalidConfiguration, approval_always_message(), false))
                    } else {
                        Err(
                            (
                                ErrorCode::InvalidConfiguration,
                                "unsupported Codex approval policy"@,
                                false,
                            ),
                        )
                    },
                }
            },
        },
    }
}

/// Parses a sandbox setting.
fn sandbox_from_text(text: &str) -> (level: Option<SandboxAccess>)
    ensures
        level == parse_sandbox(text@),
{
    if str_equals(text, "read_only") || str_equals(text, "strict") {
        Some(SandboxAccess::ReadOnly)
    } else if str_equals(text, "workspace_write") {
        Some(SandboxAccess::WorkspaceWrite)
    } else if str_equals(text, "full_access") {
        Some(SandboxAccess::FullAccess)
    } else {
        None
    }
}

/// A Run's permission snapshot keeps what the settings name. When it is
/// granted: the sandbox is the level the sandbox setting names (`read_only`
/// or `strict`, `workspace_write`, `full_access`) and lies within the
/// administrator ceiling; for a Codex Agent the approval mode is the one the
/// approval setting names (`on_request` or `untrusted_only`), and any other
/// Agent asks on request.
pub proof fn lemma_profile_follows_the_settings(
    sandbox: Option<Seq<char>>,
    approval: Option<Seq<char>>,
    kind: AgentMode,
    limits: PermissionPolicyLimits,
)
    ensures
        effective_profile(sandbox, approval, kind, limits) matches Ok(p) ==> {
            &&& sandbox matches Some(t) && (
                (p.sandbox == SandboxAccess::ReadOnly && (t == "read_only"@ || t == "strict"@))
                || (p.sandbox == SandboxAccess::WorkspaceWrite && t == "workspace_write"@)
                || (p.sandbox == SandboxAccess::FullAccess && t == "full_access"@))
            &&& sandbox_rank(p.sandbox) <= sandbox_rank(limits.max_sandbox)
            &&& kind == AgentMode::Codex ==> (
                (p.approval == ApprovalMode::OnRequest && approval == Some("on_request"@))
                || (p.approval == ApprovalMode::UntrustedOnly && approval == Some("untrusted_only"@)))
            &&& kind != AgentMode::Codex ==> p.approval == ApprovalMode::OnRequest
        },
{
}

/// A sandbox setting that names a level within the administrator ceiling
/// is granted at that level; for a Codex Agent the approval setting
/// `on_request` gives `OnRequest` and `untrusted_only` gives
/// `UntrustedOnly`, and any other Agent asks on request.
pub proof fn lemma_named_settings_are_granted(
    text: Seq<char>,
    level: SandboxAccess,
    approval: Option<Seq<char>>,
    kind: AgentMode,
    limits: PermissionPolicyLimits,
)
    requires
        parse_sandbox(text) == Some(level),
        sandbox_rank(level) <= sandbox_rank(limits.max_sandbox),
    ensures
        kind == AgentMode::Codex && approval == Some("on_request"@) ==> effective_profile(
            Some(text),
            approval,
            kind,
            limits,
        ) == Ok::<RunPermissionProfile, (ErrorCode, Seq<char>, bool)>(
            RunPermissionProfile { sandbox: level, approval: ApprovalMode::OnRequest },
        ),
        kind == AgentMode::Codex && approval == Some("untrusted_only"@) ==> effective_profile(
            Some(text),
            approval,
            kind,
            limits,
        ) == Ok::<RunPermissionProfile, (ErrorCode, Seq<char>, bool)>(
            RunPermissionProfile { sandbox: level, approval: ApprovalMode::UntrustedOnly },
        ),
        kind != AgentMode::Codex ==> effective_profile(Some(text), approval, kind, limits) == Ok::<
            RunPermissionProfile,
            (ErrorCode, Seq<char>, bool),
        >(RunPermissionProfile { sandbox: level, approval: ApprovalMode::OnRequest }),
{
    reveal_strlit("untrusted_only");
    reveal_strlit("on_request");
    assert("untrusted_only"@.len() != "on_request"@.len());
    assert("untrusted_only"@ != "on_request"@);
}

/// The permission snapshot a new Run takes from the settings, under the
/// administrator ceiling (see `effective_profile`).
pub fn effective_permission_profile(
    settings: &SettingsDocument,
    kind: AgentMode,
    limits: PermissionPolicyLimits,
) -> (result: Result<RunPermissionProfile, ControlError>)
    ensures
        matches_outcome(
            result,
            effective_profile(
                setting_text(*settings, "permissions.sandbox"@),
                setting_text(*settings, "permissions.approval"@),
                kind,
                limits,
            ),
        ),
        result matches Ok(profile) ==> sandbox_rank(profile.sandbox) <= sandbox_rank(
            limits.max_sandbox,
        ),
{
    let sandbox_text = match settings.get_text("permissions.sandbox") {
        None => {
            return Err(control_error(ErrorCode::InvalidConfiguration, "Agent sandbox policy is missing", false));
        },
        Some(text) => text,
    };
    let level = match sandbox_from_text(sandbox_text.as_str()) {
        None => {
            return Err(control_error(ErrorCode::InvalidConfiguration, "unsupported Agent sandbox policy", false));
        },
        Some(level) => level,
    };
    if rank(level) > rank(limits.max_sandbox) {
        let mut message = String::new();
        push_str(&mut message, "Agent sandbox policy ");
        push_sandbox_name(&mut message, level);
        push_str(&mut message, " exceeds the administrator limit ");
        push_sandbox_name(&mut message, limits.max_sandbox);
        proof {
            assert(message@ =~= sandbox_limit_message(level, limits.max_sandbox));
        }
        return Err(ControlError { code: ErrorCode::InvalidConfiguration, message, retryable: false });
    }
    if kind != AgentMode::Codex {
        return Ok(RunPermissionProfile { sandbox: level, approval: ApprovalMode::OnRequest });
    }
    let mode = match settings.get_text("permissions.approval") {
        None => {
            return Err(control_error(ErrorCode::InvalidConfiguration, "Codex approval policy is missing", false));
        },
        Some(mode) => mode,
    };
    if str_equals(mode.as_str(), "on_request") {
        Ok(RunPermissionProfile { sandbox: level, approval: ApprovalMode::OnRequest })
    } else if str_equals(mode.as_str(), "untrusted_only") {
        Ok(RunPermissionProfile { sandbox: level, approval: ApprovalMode::UntrustedOnly })
    } else if str_equals(mode.as_str(), "always") {
        Err(
            control_error(
                ErrorCode::InvalidConfiguration,
                "Codex app-server cannot guarantee approval for every native operation; permissions.approval=always is unsupported",
                false,
            ),
        )
    } else {
        Err(control_error(ErrorCode::InvalidConfiguration, "unsupported Codex approval policy", false))
    }
}

/// A Run snapshot may not exceed the administrator sandbox ceiling.
pub fn validate_run_permission_ceiling(
    profile: RunPermissionProfile,
    limits: PermissionPolicyLimits,
) -> (result: Result<(), ControlError>)
    ensures
        sandbox_rank(profile.sandbox) <= sandbox_rank(limits.max_sandbox) <==> result is Ok,
        result matches Err(e) ==> is_error(
            e,
            ErrorCode::InvalidConfiguration,
            "Run permission snapshot exceeds the administrator sandbox ceiling"@,
            false,
        ),
{
    if rank(profile.sandbox) > rank(limits.max_sandbox) {
        return Err(
            control_error(
                ErrorCode::InvalidConfiguration,
                "Run permission snapshot exceeds the administrator sandbox ceiling",
                false,
            ),
        );
    }
    Ok(())
}


/// A requested network capability.
#[derive(Debug)]
pub struct NetworkPermission {
    pub enabled: Option<bool>,
}

/// Read or write access to a filesystem entry.
#[derive(Clone, Copy, Debug, PartialEq, Eq, Structural)]
pub enum FileSystemAccess {
    Read,
    Write,
}

/// A special filesystem location named by the agent.
#[derive(Debug)]
pub enum SpecialPath {
    ProjectRoots { subpath: Option<String> },
    /// A special location the agent's protocol marks as unknown, with its raw text.
    Unknown { raw: String },
    /// Any other named special location (the filesystem root, the temp directory, ...).
    Other { name: String },
}

/// The location a filesystem entry grants.
#[derive(Debug)]
pub enum FileSystemPath {
    Path(String),
    GlobPattern(String),
    Special(SpecialPath),
}

/// One filesystem grant entry.
#[derive(Debug)]
pub struct FileSystemEntry {
    pub path: FileSystemPath,
    pub access: FileSystemAccess,
}

/// Requested filesystem capabilities.
#[derive(Debug)]
pub struct FileSystemPermissions {
    pub read: Vec<String>,
    pub write: Vec<String>,
    pub entries: Vec<FileSystemEntry>,
    pub glob_scan_max_depth: Option<u64>,
}

/// The explicit permission profile a Codex permission approval asks for.
#[derive(Debug)]
pub struct NativePermissionProfile {
    pub network: Option<NetworkPermission>,
    pub file_system: Option<FileSystemPermissions>,
}

/// The error for a path outside the display bounds.
pub open spec fn permission_path_error() -> (ErrorCode, Seq<char>, bool) {
    (ErrorCode::ToolApprovalRequired, "permission path is empty or outside size limits"@, false)
}

/// The first problem of one entry, if any.
pub open spec fn entry_failure(entry: FileSystemEntry) -> Option<(ErrorCode, Seq<char>, bool)> {
    match entry.path {
        FileSystemPath::Path(p) => if bounded_display_value(p@) {
            None
        } else {
            Some(permission_path_error())
        },
        FileSystemPath::GlobPattern(p) => if bounded_display_value(p@) {
            None
        } else {
            Some(permission_path_error())
        },
        FileSystemPath::Special(SpecialPath::ProjectRoots { subpath: Some(sub) }) => if bounded_display_value(sub@) {
            None
        } else {
            Some(permission_path_error())
        },
        FileSystemPath::Special(SpecialPath::Unknown { .. }) => Some(
            (ErrorCode::ToolApprovalRequired, "unknown special filesystem permission path"@, false),
        ),
        _ => None,
    }
}

/// The problem of the first failing entry, if any.
pub open spec fn first_entry_failure(entries: Seq<FileSystemEntry>) -> Option<(ErrorCode, Seq<char>, bool)>
    decreases entries.len(),
{
    if entries.len() == 0 {
        None
    } else {
        match entry_failure(entries[0]) {
            Some(e) => Some(e),
            None => first_entry_failure(entries.drop_first()),
        }
    }
}

/// Every text of the list is a bounded display value.
pub open spec fn all_display_values(values: Seq<Seq<char>>) -> bool {
    forall|i: int| 0 <= i < values.len() ==> bounded_display_value(#[trigger] values[i])
}

/// The profile names at least one capability.
pub open spec fn is_explicit(profile: NativePermissionProfile) -> bool {
    profile.network.is_some() || match profile.file_system {
        Some(fs) => fs.entries@.len() > 0 || fs.read@.len() > 0 || fs.write@.len() > 0,
        None => false,
    }
}

/// The outcome of validating a requested permission profile.
pub open spec fn native_profile_check(profile: NativePermissionProfile) -> Outcome<()> {
    let explicit_error = (
        ErrorCode::ToolApprovalRequired,
        "permission profile does not contain an explicit capability"@,
        false,
    );
    if profile.network matches Some(n) && n.enabled.is_none() {
        Err((ErrorCode::ToolApprovalRequired, "network permission must explicitly state enabled"@, false))
    } else {
        match profile.file_system {
            Some(fs) => if fs.glob_scan_max_depth == Some(0u64) {
                Err((ErrorCode::ToolApprovalRequired, "filesystem glob scan depth must be positive"@, false))
            } else if fs.entries@.len() > 128 || fs.read@.len() > 128 || fs.write@.len() > 128 {
                Err((ErrorCode::ToolApprovalRequired, "filesystem permission profile is too large"@, false))
            } else if !all_display_values(texts(fs.read@) + texts(fs.write@)) {
                Err(permission_path_error())
            } else {
                match first_entry_failure(fs.entries@) {
                    Some(e) => Err(e),
                    None => if is_explicit(profile) {
                        Ok(())
                    } else {
                        Err(explicit_error)
                    },
                }
            },
            None => if is_explicit(profile) {
                Ok(())
            } else {
                Err(explicit_error)
            },
        }
    }
}

fn all_bounded(values: &Vec<String>) -> (result: bool)
    ensures
        result == all_display_values(texts(values@)),
{
    let mut i: usize = 0;
    while i < values.len()
        invariant
            i <= values@.len(),
            forall|j: int| 0 <= j < i ==> bounded_display_value(#[trigger] texts(values@)[j]),
        decreases values.len() - i,
    {
        if !is_bounded_display_value(values[i].as_str()) {
            proof {
                assert(!bounded_display_value(texts(values@)[i as int]));
            }
            return false;
        }
        i = i + 1;
    }
    true
}

fn check_entry(entry: &FileSystemEntry) -> (result: Result<(), ControlError>)
    ensures
        match entry_failure(*entry) {
            None => result is Ok,
            Some(spec) => result matches Err(e) && is_error(e, spec.0, spec.1, spec.2),
        },
{
    let path_error = "permission path is empty or outside size limits";
    match &entry.path {
        FileSystemPath::Path(p) | FileSystemPath::GlobPattern(p) => {
            if is_bounded_display_value(p.as_str()) {
                Ok(())
            } else {
                Err(control_error(ErrorCode::ToolApprovalRequired, path_error, false))
            }
        },
        FileSystemPath::Special(SpecialPath::ProjectRoots { subpath: Some(sub) }) => {
            if is_bounded_display_value(sub.as_str()) {
                Ok(())
            } else {
                Err(control_error(ErrorCode::ToolApprovalRequired, path_error, false))
            }
        },
        FileSystemPath::Special(SpecialPath::Unknown { .. }) => Err(
            control_error(ErrorCode::ToolApprovalRequired, "unknown special filesystem permission path", false),
        ),
        _ => Ok(()),
    }
}

/// Validates a permission profile requested by the agent (see `native_profile_check`).
#[verifier::loop_isolation(false)]
pub fn validate_native_permission_profile(profile: &NativePermissionProfile) -> (result: Result<
    (),
    ControlError,
>)
    ensures
        matches_outcome(result, native_profile_check(*profile)),
{
    if let Some(network) = &profile.network {
        if network.enabled.is_none() {
            return Err(
                control_error(ErrorCode::ToolApprovalRequired, "network permission must explicitly state enabled", false),
            );
        }
    }
    let mut explicit = profile.network.is_some();
    if let Some(fs) = &profile.file_system {
        if fs.glob_scan_max_depth == Some(0u64) {
            return Err(
                control_error(ErrorCode::ToolApprovalRequired, "filesystem glob scan depth must be positive", false),
            );
        }
        if fs.entries.len() > 128 || fs.read.len() > 128 || fs.write.len() > 128 {
            return Err(
                control_error(ErrorCode::ToolApprovalRequired, "filesystem permission profile is too large", false),
            );
        }
        let read_ok = all_bounded(&fs.read);
        let write_ok = all_bounded(&fs.write);
        proof {
            let both = texts(fs.read@) + texts(fs.write@);
            if read_ok && write_ok {
                assert forall|i: int| 0 <= i < both.len() implies bounded_display_value(#[trigger] both[i]) by {
                    if i < texts(fs.read@).len() {
                        assert(both[i] == texts(fs.read@)[i]);
                    } else {
                        assert(both[i] == texts(fs.write@)[i - texts(fs.read@).len()]);
                    }
                }
            } else if !read_ok {
                let k = choose|k: int| 0 <= k < texts(fs.read@).len() && !bounded_display_value(texts(fs.read@)[k]);
                assert(both[k] == texts(fs.read@)[k]);
            } else {
                let k = choose|k: int| 0 <= k < texts(fs.write@).len() && !bounded_display_value(texts(fs.write@)[k]);
                assert(both[k + texts(fs.read@).len()] == texts(fs.write@)[k]);
            }
        }
        if !(read_ok && write_ok) {
            return Err(control_error(ErrorCode::ToolApprovalRequired, "permission path is empty or outside size limits", false));
        }
        let mut i: usize = 0;
        proof {
            assert(fs.entries@.subrange(0, fs.entries@.len() as int) =~= fs.entries@);
        }
        while i < fs.entries.len()
            invariant
                i <= fs.entries@.len(),
                first_entry_failure(fs.entries@) == first_entry_failure(fs.entries@.subrange(i as int, fs.entries@.len() as int)),
            decreases fs.entries.len() - i,
        {
            let ghost rest = fs.entries@.subrange(i as int, fs.entries@.len() as int);
            proof {
                assert(rest[0] == fs.entries@[i as int]);
                assert(rest.drop_first() =~= fs.entries@.subrange(i + 1, fs.entries@.len() as int));
            }
            let checked = check_entry(&fs.entries[i]);
            if let Err(e) = checked {
                proof {
                    assert(entry_failure(rest[0]).is_some());
                    assert(first_entry_failure(rest) == entry_failure(rest[0]));
                }
                return Err(e);
            }
            i = i + 1;
        }
        proof {
            assert(fs.entries@.subrange(i as int, fs.entries@.len() as int) =~= Seq::<FileSystemEntry>::empty());
        }
        explicit = explicit || fs.entries.len() > 0 || fs.read.len() > 0 || fs.write.len() > 0;
    }
    if !explicit {
        return Err(
            control_error(
                ErrorCode::ToolApprovalRequired,
                "permission profile does not contain an explicit capability",
                false,
            ),
        );
    }
    Ok(())
}

/// The paths whose Project boundary must be proven, in order, and whether an
/// entry after them cannot be proven at all (a glob or another special path).
pub open spec fn entry_targets(entries: Seq<FileSystemEntry>) -> (Seq<Seq<char>>, bool)
    decreases entries.len(),
{
    if entries.len() == 0 {
        (Seq::empty(), false)
    } else {
        let rest = entry_targets(entries.drop_first());
        match entries[0].path {
            FileSystemPath::Path(p) => (seq![p@] + rest.0, rest.1),
            FileSystemPath::Special(SpecialPath::ProjectRoots { subpath: Some(sub) }) => (
                seq![sub@] + rest.0,
                rest.1,
            ),
            FileSystemPath::Special(SpecialPath::ProjectRoots { subpath: None }) => rest,
            _ => (Seq::empty(), true),
        }
    }
}

/// Whether the profile asks to write anywhere.
pub open spec fn requests_write(fs: FileSystemPermissions) -> bool {
    fs.write@.len() > 0 || exists|i: int| 0 <= i < fs.entries@.len() && (#[trigger] fs.entries@[i]).access == FileSystemAccess::Write
}

/// The error for a write grant above a ceiling.
pub open spec fn write_ceiling_error() -> (ErrorCode, Seq<char>, bool) {
    (
        ErrorCode::InvalidConfiguration,
        "filesystem write grant exceeds the Run snapshot or administrator sandbox ceiling"@,
        false,
    )
}

/// The error for a grant that no fact can confine.
pub open spec fn unprovable_grant_error() -> (ErrorCode, Seq<char>, bool) {
    (
        ErrorCode::InvalidConfiguration,
        "filesystem grant cannot be proven to stay inside the Project boundary"@,
        false,
    )
}

/// What a permission grant must still prove before it is allowed: a write
/// request is refused outright when the Run snapshot or the administrator
/// ceiling is below `WorkspaceWrite`; otherwise the read, write and entry
/// paths are listed for boundary checks.
pub open spec fn grant_targets(
    permissions: NativePermissionProfile,
    run_profile: RunPermissionProfile,
    limits: PermissionPolicyLimits,
) -> Outcome<(Seq<Seq<char>>, bool)> {
    match permissions.file_system {
        None => Ok((Seq::empty(), false)),
        Some(fs) => if requests_write(fs) && (sandbox_rank(run_profile.sandbox) < 1 || sandbox_rank(
            limits.max_sandbox,
        ) < 1) {
            Err(write_ceiling_error())
        } else {
            let (entries, unprovable) = entry_targets(fs.entries@);
            Ok((texts(fs.read@) + texts(fs.write@) + entries, unprovable))
        },
    }
}

/// The boundary checks a permission grant needs.
#[derive(Debug)]
pub struct GrantTargets {
    pub paths: Vec<String>,
    pub unprovable: bool,
}

fn append_texts(out: &mut Vec<String>, values: &Vec<String>)
    ensures
        texts(final(out)@) == texts(old(out)@) + texts(values@),
{
    let ghost start = texts(out@);
    let mut i: usize = 0;
    while i < values.len()
        invariant
            i <= values@.len(),
            texts(out@) == start + texts(values@).take(i as int),
        decreases values.len() - i,
    {
        let ghost before = out@;
        out.push(values[i].clone());
        proof {
            assert(texts(out@) =~= texts(before).push(texts(values@)[i as int]));
            assert(texts(values@).take(i + 1) =~= texts(values@).take(i as int).push(texts(values@)[i as int]));
        }
        i = i + 1;
    }
    proof {
        assert(texts(values@).take(values@.len() as int) =~= texts(values@));
    }
}

proof fn lemma_entry_targets_step(entries: Seq<FileSystemEntry>, i: int)
    requires
        0 <= i < entries.len(),
    ensures
        entry_targets(entries.subrange(i, entries.len() as int)) == ({
            let rest = entry_targets(entries.subrange(i + 1, entries.len() as int));
            match entries[i].path {
                FileSystemPath::Path(p) => (seq![p@] + rest.0, rest.1),
                FileSystemPath::Special(SpecialPath::ProjectRoots { subpath: Some(sub) }) => (
                    seq![sub@] + rest.0,
                    rest.1,
                ),
                FileSystemPath::Special(SpecialPath::ProjectRoots { subpath: None }) => rest,
                _ => (Seq::empty(), true),
            }
        }),
{
    let s = entries.subrange(i, entries.len() as int);
    assert(s.drop_first() =~= entries.subrange(i + 1, entries.len() as int));
    assert(s[0] == entries[i]);
}

/// The paths a permission grant must prove inside the Project, or the
/// ceiling error (see `grant_targets`).
pub fn grant_ceiling_targets(
    permissions: &NativePermissionProfile,
    run_profile: RunPermissionProfile,
    limits: PermissionPolicyLimits,
) -> (result: Result<GrantTargets, ControlError>)
    ensures
        match (result, grant_targets(*permissions, run_profile, limits)) {
            (Ok(t), Ok((paths, unprovable))) => texts(t.paths@) == paths && t.unprovable == unprovable,
            (Err(e), Err(spec)) => is_error(e, spec.0, spec.1, spec.2),
            _ => false,
        },
{
    let fs = match &permissions.file_system {
        None => {
            let result = GrantTargets { paths: Vec::new(), unprovable: false };
            proof {
                assert(texts(result.paths@) =~= Seq::<Seq<char>>::empty());
            }
            return Ok(result);
        },
        Some(fs) => fs,
    };
    let mut writes = fs.write.len() > 0;
    let mut k: usize = 0;
    while k < fs.entries.len() && !writes
        invariant
            k <= fs.entries@.len(),
            writes == (fs.write@.len() > 0 || exists|i: int| 0 <= i < k && (#[trigger] fs.entries@[i]).access == FileSystemAccess::Write),
        decreases fs.entries.len() - k,
    {
        if fs.entries[k].access == FileSystemAccess::Write {
            writes = true;
        }
        k = k + 1;
    }
    if writes && (rank(run_profile.sandbox) < 1 || rank(limits.max_sandbox) < 1) {
        return Err(
            control_error(
                ErrorCode::InvalidConfiguration,
                "filesystem write grant exceeds the Run snapshot or administrator sandbox ceiling",
                false,
            ),
        );
    }
    let mut paths: Vec<String> = Vec::new();
    append_texts(&mut paths, &fs.read);
    append_texts(&mut paths, &fs.write);
    let ghost prefix = texts(fs.read@) + texts(fs.write@);
    let mut collected: Vec<String> = Vec::new();
    let mut unprovable = false;
    let mut i: usize = 0;
    proof {
        assert(fs.entries@.subrange(0, fs.entries@.len() as int) =~= fs.entries@);
        assert(texts(collected@) + entry_targets(fs.entries@.subrange(0, fs.entries@.len() as int)).0 =~= entry_targets(fs.entries@).0);
    }
    while i < fs.entries.len() && !unprovable
        invariant
            i <= fs.entries@.len(),
            !unprovable ==> texts(collected@) + entry_targets(fs.entries@.subrange(i as int, fs.entries@.len() as int)).0 == entry_targets(fs.entries@).0,
            !unprovable ==> entry_targets(fs.entries@.subrange(i as int, fs.entries@.len() as int)).1 == entry_targets(fs.entries@).1,
            unprovable ==> texts(collected@) == entry_targets(fs.entries@).0 && entry_targets(fs.entries@).1,
        decreases fs.entries.len() - i,
    {
        proof {
            lemma_entry_targets_step(fs.entries@, i as int);
        }
        let ghost before = collected@;
        match &fs.entries[i].path {
            FileSystemPath::Path(p) => {
                collected.push(p.clone());
                proof {
                    assert(texts(collected@) =~= texts(before).push(p@));
                    let rest = entry_targets(fs.entries@.subrange(i + 1, fs.entries@.len() as int)).0;
                    assert(texts(before).push(p@) + rest =~= texts(before) + (seq![p@] + rest));
                }
            },
            FileSystemPath::Special(SpecialPath::ProjectRoots { subpath: Some(sub) }) => {
                collected.push(sub.clone());
                proof {
                    assert(texts(collected@) =~= texts(before).push(sub@));
                    let rest = entry_targets(fs.entries@.subrange(i + 1, fs.entries@.len() as int)).0;
                    assert(texts(before).push(sub@) + rest =~= texts(before) + (seq![sub@] + rest));
                }
            },
            FileSystemPath::Special(SpecialPath::ProjectRoots { subpath: None }) => {},
            _ => {
                unprovable = true;
                proof {
                    assert(texts(before) + Seq::<Seq<char>>::empty() =~= texts(before));
                }
            },
        }
        i = i + 1;
    }
    proof {
        if !unprovable {
            assert(fs.entries@.subrange(i as int, fs.entries@.len() as int) =~= Seq::<FileSystemEntry>::empty());
            assert(texts(collected@) + Seq::<Seq<char>>::empty() =~= texts(collected@));
        }
    }
    append_texts(&mut paths, &collected);
    Ok(GrantTargets { paths, unprovable })
}

} // verus!
