use ait_application::errors::ErrorCode;
use ait_application::permissions::{
    effective_permission_profile, grant_ceiling_targets, validate_native_permission_profile,
    validate_run_permission_ceiling, AgentMode, ApprovalMode, FileSystemAccess, FileSystemEntry,
    FileSystemPath, FileSystemPermissions, NativePermissionProfile, NetworkPermission,
    PermissionPolicyLimits, RunPermissionProfile, SandboxAccess, SpecialPath,
};
use ait_application::settings::{SettingValue, SettingsDocument};

fn settings(sandbox: &str, approval: &str) -> SettingsDocument {
    SettingsDocument {
        entries: vec![
            ("permissions.sandbox".into(), SettingValue::Text(sandbox.into())),
            ("permissions.approval".into(), SettingValue::Text(approval.into())),
        ],
    }
}

fn writes(paths: &[&str]) -> NativePermissionProfile {
    NativePermissionProfile {
        network: None,
        file_system: Some(FileSystemPermissions {
            read: Vec::new(),
            write: paths.iter().map(|p| p.to_string()).collect(),
            entries: Vec::new(),
            glob_scan_max_depth: None,
        }),
    }
}

#[test]
fn effective_profile_follows_the_settings_under_the_ceiling() {
    let limits = PermissionPolicyLimits::default();
    let profile =
        effective_permission_profile(&settings("workspace_write", "untrusted_only"), AgentMode::Codex, limits)
            .unwrap();
    assert_eq!(profile.sandbox, SandboxAccess::WorkspaceWrite);
    assert_eq!(profile.approval, ApprovalMode::UntrustedOnly);
    let strict = effective_permission_profile(&settings("strict", "x"), AgentMode::OpenAI, limits).unwrap();
    assert_eq!(strict.sandbox, SandboxAccess::ReadOnly);
    assert_eq!(strict.approval, ApprovalMode::OnRequest);
    let capped = PermissionPolicyLimits {
        max_sandbox: SandboxAccess::WorkspaceWrite,
        allow_session_approvals: true,
    };
    let refused = effective_permission_profile(&settings("full_access", "on_request"), AgentMode::Codex, capped)
        .unwrap_err();
    assert_eq!(
        refused.message,
        "Agent sandbox policy FullAccess exceeds the administrator limit WorkspaceWrite"
    );
    let always = effective_permission_profile(&settings("read_only", "always"), AgentMode::Codex, limits)
        .unwrap_err();
    assert!(always.message.contains("permissions.approval=always is unsupported"));
    let missing = effective_permission_profile(&SettingsDocument { entries: Vec::new() }, AgentMode::Codex, limits)
        .unwrap_err();
    assert_eq!(missing.message, "Agent sandbox policy is missing");
}

#[test]
fn run_snapshots_above_the_ceiling_are_refused() {
    let run = RunPermissionProfile {
        sandbox: SandboxAccess::FullAccess,
        approval: ApprovalMode::OnRequest,
    };
    let limits = PermissionPolicyLimits {
        max_sandbox: SandboxAccess::ReadOnly,
        allow_session_approvals: false,
    };
    assert!(validate_run_permission_ceiling(run, limits).is_err());
    assert!(validate_run_permission_ceiling(run, PermissionPolicyLimits::default()).is_ok());
}

#[test]
fn requested_profiles_must_be_explicit_and_bounded() {
    let empty = NativePermissionProfile {
        network: None,
        file_system: None,
    };
    assert_eq!(
        validate_native_permission_profile(&empty).unwrap_err().message,
        "permission profile does not contain an explicit capability"
    );
    let vague_network = NativePermissionProfile {
        network: Some(NetworkPermission { enabled: None }),
        file_system: None,
    };
    assert_eq!(
        validate_native_permission_profile(&vague_network).unwrap_err().message,
        "network permission must explicitly state enabled"
    );
    let network = NativePermissionProfile {
        network: Some(NetworkPermission { enabled: Some(false) }),
        file_system: None,
    };
    assert!(validate_native_permission_profile(&network).is_ok());
    assert!(validate_native_permission_profile(&writes(&["src"])).is_ok());
    assert_eq!(
        validate_native_permission_profile(&writes(&[" "])).unwrap_err().message,
        "permission path is empty or outside size limits"
    );
    let unknown = NativePermissionProfile {
        network: None,
        file_system: Some(FileSystemPermissions {
            read: Vec::new(),
            write: Vec::new(),
            entries: vec![FileSystemEntry {
                path: FileSystemPath::Special(SpecialPath::Unknown { raw: "?".into() }),
                access: FileSystemAccess::Read,
            }],
            glob_scan_max_depth: Some(2),
        }),
    };
    assert_eq!(
        validate_native_permission_profile(&unknown).unwrap_err().code,
        ErrorCode::ToolApprovalRequired
    );
}

#[test]
fn approvals_facts_cannot_raise_run_or_administrator_write_ceilings() {
    let permissions = writes(&["inside"]);
    for (sandbox, maximum) in [
        (SandboxAccess::ReadOnly, SandboxAccess::FullAccess),
        (SandboxAccess::WorkspaceWrite, SandboxAccess::ReadOnly),
    ] {
        let run = RunPermissionProfile {
            sandbox,
            approval: ApprovalMode::OnRequest,
        };
        let limits = PermissionPolicyLimits {
            max_sandbox: maximum,
            allow_session_approvals: true,
        };
        let refused = grant_ceiling_targets(&permissions, run, limits).err().unwrap();
        assert_eq!(
            refused.message,
            "filesystem write grant exceeds the Run snapshot or administrator sandbox ceiling"
        );
    }
    let run = RunPermissionProfile {
        sandbox: SandboxAccess::WorkspaceWrite,
        approval: ApprovalMode::OnRequest,
    };
    let targets = grant_ceiling_targets(&permissions, run, PermissionPolicyLimits::default()).ok().unwrap();
    assert_eq!(targets.paths, vec!["inside".to_string()]);
    assert!(!targets.unprovable);
}

#[test]
fn glob_grants_cannot_be_proven_inside_the_project() {
    let profile = NativePermissionProfile {
        network: None,
        file_system: Some(FileSystemPermissions {
            read: vec!["docs".into()],
            write: Vec::new(),
            entries: vec![
                FileSystemEntry {
                    path: FileSystemPath::Special(SpecialPath::ProjectRoots {
                        subpath: Some("sub".into()),
                    }),
                    access: FileSystemAccess::Read,
                },
                FileSystemEntry {
                    path: FileSystemPath::GlobPattern("**/*.rs".into()),
                    access: FileSystemAccess::Read,
                },
                FileSystemEntry {
                    path: FileSystemPath::Path("later".into()),
                    access: FileSystemAccess::Read,
                },
            ],
            glob_scan_max_depth: None,
        }),
    };
    let run = RunPermissionProfile {
        sandbox: SandboxAccess::ReadOnly,
        approval: ApprovalMode::OnRequest,
    };
    let targets = grant_ceiling_targets(&profile, run, PermissionPolicyLimits::default()).ok().unwrap();
    assert_eq!(targets.paths, vec!["docs".to_string(), "sub".to_string()]);
    assert!(targets.unprovable);
}

#[test]
fn fact_tests_facts_cannot_raise_run_or_administrator_write_ceilings() {
    let permissions = writes(&["inside"]);
    for (sandbox, maximum) in [
        (SandboxAccess::ReadOnly, SandboxAccess::FullAccess),
        (SandboxAccess::WorkspaceWrite, SandboxAccess::ReadOnly),
    ] {
        let run = RunPermissionProfile {
            sandbox,
            approval: ApprovalMode::OnRequest,
        };
        let limits = PermissionPolicyLimits {
            max_sandbox: maximum,
            allow_session_approvals: true,
        };
        assert!(grant_ceiling_targets(&permissions, run, limits).is_err());
    }
    let run = RunPermissionProfile {
        sandbox: SandboxAccess::WorkspaceWrite,
        approval: ApprovalMode::OnRequest,
    };
    assert!(grant_ceiling_targets(&permissions, run, PermissionPolicyLimits::default()).is_ok());
}
