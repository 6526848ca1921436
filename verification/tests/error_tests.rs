use jj_navi::error::{render_domain_error, Error};
use jj_navi::types::WorkspaceMergeRole;

fn check(error: Error, code: &str, message: &str) {
    assert_eq!(error.message(), message);
    assert_eq!(error.code(), code);
    assert!(error.code().chars().all(|c| c.is_ascii_lowercase() || c.is_ascii_digit() || c == '-'));
}

#[test]
fn error_not_in_workspace() {
    check(
        Error::NotInWorkspace,
        "not-in-workspace",
        "error: not in a jj workspace",
    );
}

#[test]
fn error_invalid_workspace_name() {
    check(
        Error::InvalidWorkspaceName("alpha".to_owned()),
        "invalid-workspace-name",
        "error: invalid workspace name 'alpha'",
    );
}

#[test]
fn error_orphaned_workspace() {
    check(
        Error::OrphanedWorkspace,
        "orphaned-workspace",
        "error: current directory is no longer a registered jj workspace\nhint: cd into another workspace or recreate this workspace with jj",
    );
}

#[test]
fn error_repo_name() {
    check(
        Error::RepoName,
        "repo-name",
        "error: failed to determine repo name",
    );
}

#[test]
fn error_workspace_root_has_no_parent() {
    check(
        Error::WorkspaceRootHasNoParent("alpha".to_owned()),
        "workspace-root-has-no-parent",
        "error: workspace root has no parent: alpha",
    );
}

#[test]
fn error_workspace_does_not_exist() {
    check(
        Error::WorkspaceDoesNotExist,
        "workspace-does-not-exist",
        "error: workspace does not exist\nhint: use --create",
    );
}

#[test]
fn error_workspace_not_found() {
    check(
        Error::WorkspaceNotFound("alpha".to_owned()),
        "workspace-not-found",
        "error: workspace 'alpha' does not exist",
    );
}

#[test]
fn error_workspace_directory_unavailable() {
    check(
        Error::WorkspaceDirectoryUnavailable { workspace: "workspace-value".to_owned(), path: "path-value".to_owned() },
        "workspace-directory-unavailable",
        "error: workspace 'workspace-value' exists, but its directory could not be resolved\nhint: last known path: path-value",
    );
}

#[test]
fn error_cannot_remove_current_workspace() {
    check(
        Error::CannotRemoveCurrentWorkspace,
        "cannot-remove-current-workspace",
        "error: cannot remove current workspace\nhint: switch to another workspace first",
    );
}

#[test]
fn error_cannot_remove_workspace_with_shared_repo_storage() {
    check(
        Error::CannotRemoveWorkspaceWithSharedRepoStorage { workspace: "workspace-value".to_owned(), path: "path-value".to_owned() },
        "cannot-remove-workspace-with-shared-repo-storage",
        "error: cannot remove workspace 'workspace-value' because its directory contains shared jj repo storage\nhint: navi remove only deletes workspaces whose directory does not own shared repo storage: path-value",
    );
}

#[test]
fn error_remove_cancelled() {
    check(
        Error::RemoveCancelled,
        "remove-cancelled",
        "error: remove cancelled\nhint: rerun with --yes to skip confirmation",
    );
}

#[test]
fn error_merge_same_workspace() {
    check(
        Error::MergeSameWorkspace("alpha".to_owned()),
        "merge-same-workspace",
        "error: cannot merge workspace 'alpha' into itself\nhint: choose a different --into workspace",
    );
}

#[test]
fn error_merge_workspace_missing() {
    check(
        Error::MergeWorkspaceMissing { role: WorkspaceMergeRole::Source, workspace: "workspace-value".to_owned() },
        "merge-workspace-missing",
        "error: merge source workspace 'workspace-value' does not exist\nhint: run navi list and choose an existing workspace",
    );
}

#[test]
fn error_merge_workspace_ambiguous() {
    check(
        Error::MergeWorkspaceAmbiguous { role: WorkspaceMergeRole::Source, workspace: "workspace-value".to_owned() },
        "merge-workspace-ambiguous",
        "error: merge source workspace 'workspace-value' is ambiguous\nhint: inspect jj workspace list before merging",
    );
}

#[test]
fn error_merge_workspace_unavailable() {
    check(
        Error::MergeWorkspaceUnavailable { role: WorkspaceMergeRole::Source, workspace: "workspace-value".to_owned(), reason: "reason-value".to_owned() },
        "merge-workspace-unavailable",
        "error: merge source workspace 'workspace-value' is not ready: reason-value\nhint: run navi list and fix the workspace before merging",
    );
}

#[test]
fn error_merge_source_empty() {
    check(
        Error::MergeSourceEmpty { source_workspace: "source_workspace-value".to_owned(), target: "target-value".to_owned() },
        "merge-source-empty",
        "error: merge source workspace 'source_workspace-value' has no non-empty changes not already in target workspace 'target-value'",
    );
}

#[test]
fn error_merge_source_multiple_roots() {
    check(
        Error::MergeSourceMultipleRoots { source_workspace: "source_workspace-value".to_owned(), target: "target-value".to_owned() },
        "merge-source-multiple-roots",
        "error: merge source workspace 'source_workspace-value' has multiple independent roots relative to target workspace 'target-value'\nhint: merge one linear workspace stack at a time",
    );
}

#[test]
fn error_merge_source_multiple_heads() {
    check(
        Error::MergeSourceMultipleHeads { source_workspace: "source_workspace-value".to_owned(), target: "target-value".to_owned() },
        "merge-source-multiple-heads",
        "error: merge source workspace 'source_workspace-value' has multiple independent heads relative to target workspace 'target-value'\nhint: merge one linear workspace stack at a time",
    );
}

#[test]
fn error_merge_duplicate_root_unknown() {
    check(
        Error::MergeDuplicateRootUnknown { source_workspace: "source_workspace-value".to_owned() },
        "merge-duplicate-root-unknown",
        "error: duplicated source workspace 'source_workspace-value', but could not identify the duplicated root change\nhint: rebase was not attempted; inspect the new duplicate with jj log",
    );
}

#[test]
fn error_merge_duplicate_head_unknown() {
    check(
        Error::MergeDuplicateHeadUnknown { source_workspace: "source_workspace-value".to_owned() },
        "merge-duplicate-head-unknown",
        "error: duplicated source workspace 'source_workspace-value', but could not identify the duplicated head change\nhint: rebase was not attempted; inspect the new duplicate with jj log",
    );
}

#[test]
fn error_merge_rebase_failed() {
    check(
        Error::MergeRebaseFailed { stderr: "stderr-value".to_owned() },
        "merge-rebase-failed",
        "error: merge stopped during rebase\nhint: duplicated work remains in the repo and source workspace was not rewritten; run jj resolve --list, resolve conflicts, then jj squash\nstderr-value",
    );
}

#[test]
fn error_workspace_directory_delete_after_forget_failed() {
    check(
        Error::WorkspaceDirectoryDeleteAfterForgetFailed { workspace: "workspace-value".to_owned(), path: "path-value".to_owned(), source: "source-value".to_owned() },
        "workspace-directory-delete-after-forget-failed",
        "error: failed to delete workspace directory after forgetting workspace 'workspace-value'\nhint: jj no longer tracks this workspace and navi metadata was removed; inspect and delete manually: path-value\nsource-value",
    );
}

#[test]
fn error_invalid_repo_pointer() {
    check(
        Error::InvalidRepoPointer("alpha".to_owned()),
        "invalid-repo-pointer",
        "error: invalid repo pointer in alpha",
    );
}

#[test]
fn error_repo_pointer_resolution() {
    check(
        Error::RepoPointerResolution { path: "path-value".to_owned(), message: "message-value".to_owned() },
        "repo-pointer-resolution",
        "error: invalid repo pointer in path-value\nmessage-value",
    );
}

#[test]
fn error_invalid_workspace_template() {
    check(
        Error::InvalidWorkspaceTemplate("alpha".to_owned()),
        "invalid-workspace-template",
        "error: invalid workspace template 'alpha'",
    );
}

#[test]
fn error_invalid_repo_config() {
    check(
        Error::InvalidRepoConfig { path: "path-value".to_owned(), message: "message-value".to_owned() },
        "invalid-repo-config",
        "error: invalid repo config in path-value\nmessage-value",
    );
}

#[test]
fn error_invalid_repo_state() {
    check(
        Error::InvalidRepoState { path: "path-value".to_owned(), message: "message-value".to_owned() },
        "invalid-repo-state",
        "error: invalid repo state in path-value\nmessage-value",
    );
}

#[test]
fn error_no_previous_workspace() {
    check(
        Error::NoPreviousWorkspace,
        "no-previous-workspace",
        "error: no previous workspace recorded for this repository\nhint: switch to a different workspace first",
    );
}

#[test]
fn error_previous_workspace_not_found() {
    check(
        Error::PreviousWorkspaceNotFound("alpha".to_owned()),
        "previous-workspace-not-found",
        "error: previous workspace 'alpha' no longer exists in this repository\nhint: switch to an existing workspace first",
    );
}

#[test]
fn error_primary_workspace_unavailable() {
    check(
        Error::PrimaryWorkspaceUnavailable,
        "primary-workspace-unavailable",
        "error: primary workspace could not be resolved\nhint: run navi list and switch by workspace name",
    );
}

#[test]
fn error_reserved_switch_target() {
    check(
        Error::ReservedSwitchTarget("alpha".to_owned()),
        "reserved-switch-target",
        "error: 'alpha' is a reserved switch target\nhint: use a workspace name with --create or --revision",
    );
}

#[test]
fn error_invalid_workspace_metadata() {
    check(
        Error::InvalidWorkspaceMetadata { path: "path-value".to_owned(), message: "message-value".to_owned() },
        "invalid-workspace-metadata",
        "error: invalid workspace metadata in path-value\nmessage-value",
    );
}

#[test]
fn error_invalid_jj_workspace_list_entry() {
    check(
        Error::InvalidJjWorkspaceListEntry("alpha".to_owned()),
        "invalid-jj-workspace-list-entry",
        "error: invalid jj workspace list entry\nalpha",
    );
}

#[test]
fn error_unsupported_shell() {
    check(
        Error::UnsupportedShell("alpha".to_owned()),
        "unsupported-shell",
        "error: unsupported shell 'alpha'",
    );
}

#[test]
fn error_shell_required() {
    check(
        Error::ShellRequired,
        "shell-required",
        "error: shell name required\nhint: use one of: bash, zsh",
    );
}

#[test]
fn error_shell_detection() {
    check(
        Error::ShellDetection,
        "shell-detection",
        "error: unable to detect shell from $SHELL",
    );
}

#[test]
fn error_home_directory() {
    check(
        Error::HomeDirectory,
        "home-directory",
        "error: $HOME is not set",
    );
}

#[test]
fn error_invalid_shell_rc_file() {
    check(
        Error::InvalidShellRcFile { path: "path-value".to_owned(), message: "message-value".to_owned() },
        "invalid-shell-rc-file",
        "error: invalid shell rc file at path-value\nmessage-value",
    );
}

#[test]
fn error_shell_directive_path_not_utf8() {
    check(
        Error::ShellDirectivePathNotUtf8,
        "shell-directive-path-not-utf8",
        "error: shell integration requires a UTF-8 workspace path",
    );
}

#[test]
fn error_jj_command_failed() {
    check(
        Error::JjCommandFailed { command: "command-value".to_owned(), stderr: "stderr-value".to_owned() },
        "jj-command-failed",
        "error: jj command failed: command-value\nstderr-value",
    );
}

#[test]
fn error_unsupported_jj_version() {
    check(
        Error::UnsupportedJjVersion { found: "found-value".to_owned(), minimum: "minimum-value".to_owned() },
        "unsupported-jj-version",
        "error: jj minimum-value or newer required\nhint: found found-value",
    );
}

#[test]
fn error_json_serialization() {
    check(
        Error::JsonSerialization("alpha".to_owned()),
        "json-serialization",
        "error: failed to serialize json output\nalpha",
    );
}

#[test]
fn error_invalid_lane_path() {
    check(
        Error::InvalidLanePath("alpha".to_owned()),
        "invalid-lane-path",
        "error: invalid lane path 'alpha'\nhint: use repo-relative path prefixes like src/module or docs/guide.md",
    );
}

#[test]
fn error_invalid_lane_registry() {
    check(
        Error::InvalidLaneRegistry { path: "path-value".to_owned(), message: "message-value".to_owned() },
        "invalid-lane-registry",
        "error: invalid lane registry in path-value\nmessage-value",
    );
}

#[test]
fn error_lane_exists() {
    check(
        Error::LaneExists("alpha".to_owned()),
        "lane-exists",
        "error: lane 'alpha' is already open\nhint: run navi lane list",
    );
}

#[test]
fn error_lane_not_found() {
    check(
        Error::LaneNotFound("alpha".to_owned()),
        "lane-not-found",
        "error: lane 'alpha' is not registered\nhint: run navi lane list",
    );
}

#[test]
fn error_lane_not_open() {
    check(
        Error::LaneNotOpen { name: "name-value".to_owned(), lifecycle: "lifecycle-value".to_owned() },
        "lane-not-open",
        "error: lane 'name-value' is lifecycle-value, not open",
    );
}

#[test]
fn error_lane_name_reserved() {
    check(
        Error::LaneNameReserved("alpha".to_owned()),
        "lane-name-reserved",
        "error: 'alpha' is the trunk workspace and cannot be a lane",
    );
}

#[test]
fn error_lane_overlap() {
    check(
        Error::LaneOverlap { path: "path-value".to_owned(), other: "other-value".to_owned(), other_path: "other_path-value".to_owned() },
        "lane-overlap",
        "error: lane path 'path-value' overlaps open lane 'other-value' (its path 'other_path-value')\nhint: coordinate with that lane or rerun with --allow-overlap",
    );
}

#[test]
fn error_lane_trunk_missing() {
    check(
        Error::LaneTrunkMissing("alpha".to_owned()),
        "lane-trunk-missing",
        "error: trunk workspace 'alpha' does not exist\nhint: check [lane] trunk in navi config",
    );
}

#[test]
fn error_lane_trunk_not_ready() {
    check(
        Error::LaneTrunkNotReady { trunk: "trunk-value".to_owned(), reason: "reason-value".to_owned() },
        "lane-trunk-not-ready",
        "error: trunk workspace 'trunk-value' is not ready: reason-value",
    );
}

#[test]
fn error_lane_trunk_dirty_in_scope() {
    check(
        Error::LaneTrunkDirtyInScope { lane: "lane-value".to_owned(), paths: "paths-value".to_owned() },
        "lane-trunk-dirty-in-scope",
        "error: trunk working copy has uncommitted changes inside lane 'lane-value' write-set:\npaths-value\nhint: land or restore those trunk changes first; unrelated trunk dirt does not block landing",
    );
}

#[test]
fn error_lane_workspace_missing() {
    check(
        Error::LaneWorkspaceMissing("alpha".to_owned()),
        "lane-workspace-missing",
        "error: lane 'alpha' has no jj workspace\nhint: run navi lane gc to reconcile the registry",
    );
}

#[test]
fn error_lane_not_synced() {
    check(
        Error::LaneNotSynced { lane: "lane-value".to_owned(), behind: 7 },
        "lane-not-synced",
        "error: lane 'lane-value' is not synced onto the trunk head (7 trunk change(s) missing)\nhint: run navi lane sync lane-value",
    );
}

#[test]
fn error_lane_conflicted() {
    check(
        Error::LaneConflicted { lane: "lane-value".to_owned(), count: 7 },
        "lane-conflicted",
        "error: lane 'lane-value' has 7 conflicted change(s)\nhint: resolve conflicts in the lane workspace, then retry",
    );
}

#[test]
fn error_lane_nothing_to_land() {
    check(
        Error::LaneNothingToLand("alpha".to_owned()),
        "lane-nothing-to-land",
        "error: lane 'alpha' has no changes to land",
    );
}

#[test]
fn error_lane_needs_message() {
    check(
        Error::LaneNeedsMessage("alpha".to_owned()),
        "lane-needs-message",
        "error: lane 'alpha' head has no description\nhint: rerun with -m to describe the landing",
    );
}

#[test]
fn error_lane_unscoped_changes() {
    check(
        Error::LaneUnscopedChanges { lane: "lane-value".to_owned(), paths: "paths-value".to_owned() },
        "lane-unscoped-changes",
        "error: lane 'lane-value' has changes outside its write-set:\npaths-value\nhint: extend the lane with navi lane claim, or drop them with navi lane sync lane-value --drop-unscoped",
    );
}

#[test]
fn error_lane_gate_failed() {
    check(
        Error::LaneGateFailed { command: "command-value".to_owned() },
        "gate-failed",
        &format!("{}{}", "error: gate command failed (command-value)\nhint: fix the lane and retry, or land with --no-gate if the ", "gate itself is broken"),
    );
}

#[test]
fn error_lane_not_landed() {
    check(
        Error::LaneNotLanded { lane: "lane-value".to_owned() },
        "lane-not-landed",
        "error: lane 'lane-value' still has unlanded work\nhint: land it first, or use navi lane abandon to archive and discard",
    );
}

#[test]
fn error_mutation_lock_timeout() {
    check(
        Error::MutationLockTimeout { path: "path-value".to_owned(), waited_ms: 1500 },
        "mutation-lock-timeout",
        "error: another navi operation is holding the repo lock at path-value\nhint: waited 1500ms; retry, or raise NAVI_LOCK_TIMEOUT_MS",
    );
}

#[test]
fn error_lane_trunk_moved() {
    check(
        Error::LaneTrunkMoved { lane: "lane-value".to_owned(), expected: "expected-value".to_owned(), found: "found-value".to_owned() },
        "trunk-moved",
        "error: trunk head moved while landing lane 'lane-value' (was expected-value, now found-value)\nhint: run navi lane sync lane-value, then land again",
    );
}

#[test]
fn error_lane_close_from_inside() {
    check(
        Error::LaneCloseFromInside("alpha".to_owned()),
        "lane-close-from-inside",
        "error: cannot close lane 'alpha' from inside its own workspace\nhint: run from the trunk workspace, or omit --close",
    );
}

#[test]
fn error_workspace_exists_with_revision() {
    check(
        Error::WorkspaceExistsWithRevision { workspace: "workspace-value".to_owned() },
        "workspace-exists-with-revision",
        "error: workspace 'workspace-value' already exists; --revision only applies when creating\nhint: drop -r to switch, or pick a new workspace name",
    );
}

#[test]
fn io_errors_are_passed_on() {
    let error = Error::Io("disk full".to_owned());
    assert_eq!(error.code(), "io");
    assert!(error.message().contains("disk full"));
}

#[test]
fn documented_codes_are_stable() {
    let alpha = || "alpha".to_owned();
    assert_eq!(Error::LaneNotSynced { lane: alpha(), behind: 1 }.code(), "lane-not-synced");
    assert_eq!(Error::LaneConflicted { lane: alpha(), count: 1 }.code(), "lane-conflicted");
    assert_eq!(
        Error::LaneUnscopedChanges { lane: alpha(), paths: alpha() }.code(),
        "lane-unscoped-changes"
    );
    assert_eq!(Error::LaneNeedsMessage(alpha()).code(), "lane-needs-message");
    assert_eq!(
        Error::LaneTrunkMoved { lane: alpha(), expected: alpha(), found: alpha() }.code(),
        "trunk-moved"
    );
    assert_eq!(Error::LaneGateFailed { command: alpha() }.code(), "gate-failed");
    assert_eq!(
        Error::LaneTargetHygiene { target: alpha(), reason: alpha() }.code(),
        "target-hygiene"
    );
    assert_eq!(Error::LaneTargetBookmarkMissing(alpha()).code(), "target-bookmark-missing");
    assert_eq!(
        Error::MutationLockTimeout { path: alpha(), waited_ms: 1 }.code(),
        "mutation-lock-timeout"
    );
    assert_eq!(
        Error::LaneOverlap { path: alpha(), other: alpha(), other_path: alpha() }.code(),
        "lane-overlap"
    );
    assert_eq!(Error::LaneNothingToLand(alpha()).code(), "lane-nothing-to-land");
    assert_eq!(Error::LaneReleaseWouldEmpty(alpha()).code(), "lane-release-would-empty");
    assert_eq!(Error::Engine { message: alpha() }.code(), "engine");
}

#[test]
fn errors_render_with_their_code() {
    let error = Error::LaneNothingToLand("alpha".to_owned());
    let rendered = render_domain_error(&error);
    assert!(rendered.starts_with("error[lane-nothing-to-land]: "), "{rendered}");
    assert_eq!(
        rendered,
        error.message().replacen("error: ", "error[lane-nothing-to-land]: ", 1)
    );
}

#[test]
fn similar_errors_keep_separate_codes() {
    let codes = [
        Error::MergeSameWorkspace("a".to_owned()).code(),
        Error::RemoveCancelled.code(),
        Error::NotInWorkspace.code(),
        Error::LaneCloseFromInside("a".to_owned()).code(),
        Error::LaneNeedsMessage("a".to_owned()).code(),
    ];
    for i in 0..codes.len() {
        for j in 0..i {
            assert_ne!(codes[i], codes[j]);
        }
    }
}
