//! What can go wrong, how it is reported, and the stable code of each case.

use vstd::prelude::*;

use crate::text::{self, cat3, copy, has_prefix, number, size_number};
use crate::types::WorkspaceMergeRole;

verus! {

/// Crate-wide error type for CLI, discovery, and `jj` integration failures.
#[derive(Debug, PartialEq, Eq)]
pub enum Error {
    /// The current directory is not inside a Jujutsu workspace.
    NotInWorkspace,
    /// A workspace name violates the validation rules.
    InvalidWorkspaceName(String),
    /// The current directory still contains `.jj`, but is no longer a live workspace.
    OrphanedWorkspace,
    /// The repo name could not be derived from the current workspace root.
    RepoName,
    /// The workspace root unexpectedly has no parent directory.
    WorkspaceRootHasNoParent(String),
    /// The requested workspace does not exist.
    WorkspaceDoesNotExist,
    /// The named workspace does not exist in `jj`.
    WorkspaceNotFound(String),
    /// The workspace exists, but no validated directory could be found.
    WorkspaceDirectoryUnavailable {
        /// Workspace name.
        workspace: String,
        /// Best-known display path.
        path: String,
    },
    /// Removing the current workspace would orphan the active directory.
    CannotRemoveCurrentWorkspace,
    /// Removing this workspace directory would remove shared repo storage.
    CannotRemoveWorkspaceWithSharedRepoStorage {
        /// Workspace name.
        workspace: String,
        /// Directory that owns shared repo storage.
        path: String,
    },
    /// The user declined a destructive prompt.
    RemoveCancelled,
    /// Merge would compare a workspace with itself.
    MergeSameWorkspace(String),
    /// Merge could not find the requested workspace.
    MergeWorkspaceMissing {
        /// Source or target role.
        role: WorkspaceMergeRole,
        /// Requested workspace name.
        workspace: String,
    },
    /// Merge found more than one requested workspace.
    MergeWorkspaceAmbiguous {
        /// Source or target role.
        role: WorkspaceMergeRole,
        /// Requested workspace name.
        workspace: String,
    },
    /// Merge found an unsafe workspace state.
    MergeWorkspaceUnavailable {
        /// Source or target role.
        role: WorkspaceMergeRole,
        /// Requested workspace name.
        workspace: String,
        /// Reason the workspace is unsafe.
        reason: String,
    },
    /// Merge source has no non-empty work to duplicate.
    MergeSourceEmpty {
        /// Source workspace name.
        source_workspace: String,
        /// Target workspace name.
        target: String,
    },
    /// Merge source has several independent roots.
    MergeSourceMultipleRoots {
        /// Source workspace name.
        source_workspace: String,
        /// Target workspace name.
        target: String,
    },
    /// Merge source has several independent heads.
    MergeSourceMultipleHeads {
        /// Source workspace name.
        source_workspace: String,
        /// Target workspace name.
        target: String,
    },
    /// `jj duplicate` succeeded but the duplicated root could not be identified.
    MergeDuplicateRootUnknown {
        /// Source workspace name.
        source_workspace: String,
    },
    /// `jj duplicate` succeeded but the duplicated head could not be identified.
    MergeDuplicateHeadUnknown {
        /// Source workspace name.
        source_workspace: String,
    },
    /// `jj rebase` failed after duplication.
    MergeRebaseFailed {
        /// Rebase stderr.
        stderr: String,
    },
    /// Directory deletion failed after the workspace was already forgotten.
    WorkspaceDirectoryDeleteAfterForgetFailed {
        /// Workspace name.
        workspace: String,
        /// Directory that could not be deleted.
        path: String,
        /// Underlying filesystem error.
        source: String,
    },
    /// The `.jj/repo` pointer file is empty or points to a non-directory.
    InvalidRepoPointer(String),
    /// The `.jj/repo` pointer could not be resolved to an on-disk path.
    RepoPointerResolution {
        /// Pointer file that failed to resolve.
        path: String,
        /// Underlying resolution error message.
        message: String,
    },
    /// The configured workspace template is syntactically invalid.
    InvalidWorkspaceTemplate(String),
    /// Repo config could not be parsed or validated.
    InvalidRepoConfig {
        /// Config file path.
        path: String,
        /// Validation or parse message.
        message: String,
    },
    /// Repo-scoped state could not be parsed or validated.
    InvalidRepoState {
        /// State file path.
        path: String,
        /// Validation or parse message.
        message: String,
    },
    /// No previous workspace has been recorded for this repo.
    NoPreviousWorkspace,
    /// The recorded previous workspace no longer exists in this repo.
    PreviousWorkspaceNotFound(String),
    /// The repo-primary workspace could not be resolved.
    PrimaryWorkspaceUnavailable,
    /// A symbolic switch target was used where a workspace name is required.
    ReservedSwitchTarget(String),
    /// Workspace metadata could not be parsed or validated.
    InvalidWorkspaceMetadata {
        /// Metadata file path.
        path: String,
        /// Validation or parse message.
        message: String,
    },
    /// `jj workspace list` returned output that could not be parsed.
    InvalidJjWorkspaceListEntry(String),
    /// The requested shell is not supported.
    UnsupportedShell(String),
    /// A shell argument is required for shell-init generation.
    ShellRequired,
    /// The current shell could not be inferred from `$SHELL`.
    ShellDetection,
    /// `$HOME` is required for shell installation.
    HomeDirectory,
    /// The target shell rc file contains an invalid managed block.
    InvalidShellRcFile {
        /// Shell rc path.
        path: String,
        /// Validation message.
        message: String,
    },
    /// Shell integration requires a UTF-8 renderable path.
    ShellDirectivePathNotUtf8,
    /// A `jj` command failed.
    JjCommandFailed {
        /// Rendered `jj` command line.
        command: String,
        /// Trimmed stderr output from `jj`.
        stderr: String,
    },
    /// The installed `jj` version is older than the supported floor.
    UnsupportedJjVersion {
        /// Installed `jj --version` output.
        found: String,
        /// Minimum supported version.
        minimum: String,
    },
    /// JSON output could not be serialized.
    JsonSerialization(String),
    /// Repository analysis, or a request to it, failed.
    Engine {
        /// What the engine could not do.
        message: String,
    },
    /// A lane write-set path violates the validation rules.
    InvalidLanePath(String),
    /// The lane registry could not be parsed or validated.
    InvalidLaneRegistry {
        /// Registry file path.
        path: String,
        /// Validation or parse message.
        message: String,
    },
    /// A lane with this name is already open.
    LaneExists(String),
    /// The named lane is not in the registry.
    LaneNotFound(String),
    /// The named lane is registered but no longer open.
    LaneNotOpen {
        /// Lane name.
        name: String,
        /// Terminal lifecycle state.
        lifecycle: String,
    },
    /// The lane name is reserved for the trunk workspace.
    LaneNameReserved(String),
    /// Two lanes would claim overlapping write-set paths.
    LaneOverlap {
        /// Requested path.
        path: String,
        /// Existing open lane owning the overlap.
        other: String,
        /// The overlapping path in the existing lane.
        other_path: String,
    },
    /// Releasing these paths would leave the lane without a write-set.
    LaneReleaseWouldEmpty(String),
    /// The configured trunk workspace does not exist.
    LaneTrunkMissing(String),
    /// The configured target bookmark does not exist.
    LaneTargetBookmarkMissing(String),
    /// Advancing the target would publish conflicted, divergent or undescribed history.
    LaneTargetHygiene {
        /// Target bookmark.
        target: String,
        /// What blocks publishing.
        reason: String,
    },
    /// The trunk working copy is not in a landable state.
    LaneTrunkNotReady {
        /// Trunk workspace name.
        trunk: String,
        /// Why the trunk cannot accept a landing.
        reason: String,
    },
    /// Trunk working-copy dirt intersects the lane's write-set.
    LaneTrunkDirtyInScope {
        /// Lane name.
        lane: String,
        /// Newline-joined offending paths.
        paths: String,
    },
    /// The lane workspace no longer exists in `jj`.
    LaneWorkspaceMissing(String),
    /// The lane is not rebased onto the current trunk head.
    LaneNotSynced {
        /// Lane name.
        lane: String,
        /// Number of trunk changes the lane has not absorbed.
        behind: usize,
    },
    /// The lane chain still contains conflicted commits.
    LaneConflicted {
        /// Lane name.
        lane: String,
        /// Conflicted commit count.
        count: usize,
    },
    /// The lane has no work to land.
    LaneNothingToLand(String),
    /// The landing head has no description and no message was provided.
    LaneNeedsMessage(String),
    /// The lane diff touches paths outside its declared write-set.
    LaneUnscopedChanges {
        /// Lane name.
        lane: String,
        /// Newline-joined offending paths.
        paths: String,
    },
    /// The configured gate command rejected the landing.
    LaneGateFailed {
        /// Gate command line.
        command: String,
    },
    /// Closing a lane requires it to be fully landed.
    LaneNotLanded {
        /// Lane name.
        lane: String,
    },
    /// Another process held the repo mutation lock past the timeout.
    MutationLockTimeout {
        /// Lock file path.
        path: String,
        /// How long this process waited before giving up.
        waited_ms: u128,
    },
    /// The trunk head moved while a landing was in flight.
    LaneTrunkMoved {
        /// Lane name.
        lane: String,
        /// Trunk head the landing validated against.
        expected: String,
        /// Trunk head observed after the landing gate ran.
        found: String,
    },
    /// `lane land --close` cannot delete the workspace the command runs in.
    LaneCloseFromInside(String),
    /// `switch --revision` conflicts with an existing workspace.
    WorkspaceExistsWithRevision {
        /// Existing workspace name.
        workspace: String,
    },
    /// An underlying I/O operation failed.
    Io(String),
}

/// Crate-wide result alias.
pub type Result<T> = std::result::Result<T, Error>;

/// Which error it is, without its details.
#[derive(Clone, Copy, Debug, PartialEq, Eq, Structural)]
pub enum ErrorKind {
    NotInWorkspace,
    InvalidWorkspaceName,
    OrphanedWorkspace,
    RepoName,
    WorkspaceRootHasNoParent,
    WorkspaceDoesNotExist,
    WorkspaceNotFound,
    WorkspaceDirectoryUnavailable,
    CannotRemoveCurrentWorkspace,
    CannotRemoveWorkspaceWithSharedRepoStorage,
    RemoveCancelled,
    MergeSameWorkspace,
    MergeWorkspaceMissing,
    MergeWorkspaceAmbiguous,
    MergeWorkspaceUnavailable,
    MergeSourceEmpty,
    MergeSourceMultipleRoots,
    MergeSourceMultipleHeads,
    MergeDuplicateRootUnknown,
    MergeDuplicateHeadUnknown,
    MergeRebaseFailed,
    WorkspaceDirectoryDeleteAfterForgetFailed,
    InvalidRepoPointer,
    RepoPointerResolution,
    InvalidWorkspaceTemplate,
    InvalidRepoConfig,
    InvalidRepoState,
    NoPreviousWorkspace,
    PreviousWorkspaceNotFound,
    PrimaryWorkspaceUnavailable,
    ReservedSwitchTarget,
    InvalidWorkspaceMetadata,
    InvalidJjWorkspaceListEntry,
    UnsupportedShell,
    ShellRequired,
    ShellDetection,
    HomeDirectory,
    InvalidShellRcFile,
    ShellDirectivePathNotUtf8,
    JjCommandFailed,
    UnsupportedJjVersion,
    JsonSerialization,
    Engine,
    InvalidLanePath,
    InvalidLaneRegistry,
    LaneExists,
    LaneNotFound,
    LaneNotOpen,
    LaneNameReserved,
    LaneOverlap,
    LaneReleaseWouldEmpty,
    LaneTrunkMissing,
    LaneTargetBookmarkMissing,
    LaneTargetHygiene,
    LaneTrunkNotReady,
    LaneTrunkDirtyInScope,
    LaneWorkspaceMissing,
    LaneNotSynced,
    LaneConflicted,
    LaneNothingToLand,
    LaneNeedsMessage,
    LaneUnscopedChanges,
    LaneGateFailed,
    LaneNotLanded,
    MutationLockTimeout,
    LaneTrunkMoved,
    LaneCloseFromInside,
    WorkspaceExistsWithRevision,
    Io,
}

/// An error as its kind and the texts that it carries, in the order in which
/// its fields are declared; numbers are in decimal.
pub struct ErrorView {
    pub kind: ErrorKind,
    pub args: Seq<Seq<char>>,
}

/// The view of an error without details.
pub open spec fn plain(kind: ErrorKind) -> ErrorView {
    ErrorView { kind, args: Seq::empty() }
}

/// The view of an error that carries one text.
pub open spec fn about(kind: ErrorKind, text: Seq<char>) -> ErrorView {
    ErrorView { kind, args: seq![text] }
}

/// The view of an error that carries two texts.
pub open spec fn about2(kind: ErrorKind, first: Seq<char>, second: Seq<char>) -> ErrorView {
    ErrorView { kind, args: seq![first, second] }
}

/// The view of an error that carries three texts.
pub open spec fn about3(
    kind: ErrorKind,
    first: Seq<char>,
    second: Seq<char>,
    third: Seq<char>,
) -> ErrorView {
    ErrorView { kind, args: seq![first, second, third] }
}

impl View for Error {
    type V = ErrorView;

    open spec fn view(&self) -> ErrorView {
        match self {
            Error::NotInWorkspace => plain(ErrorKind::NotInWorkspace),
            Error::InvalidWorkspaceName(value) => about(ErrorKind::InvalidWorkspaceName, value@),
            Error::OrphanedWorkspace => plain(ErrorKind::OrphanedWorkspace),
            Error::RepoName => plain(ErrorKind::RepoName),
            Error::WorkspaceRootHasNoParent(path) => about(ErrorKind::WorkspaceRootHasNoParent, path@),
            Error::WorkspaceDoesNotExist => plain(ErrorKind::WorkspaceDoesNotExist),
            Error::WorkspaceNotFound(name) => about(ErrorKind::WorkspaceNotFound, name@),
            Error::WorkspaceDirectoryUnavailable { workspace, path } => about2(ErrorKind::WorkspaceDirectoryUnavailable, workspace@, path@),
            Error::CannotRemoveCurrentWorkspace => plain(ErrorKind::CannotRemoveCurrentWorkspace),
            Error::CannotRemoveWorkspaceWithSharedRepoStorage { workspace, path } => about2(
                ErrorKind::CannotRemoveWorkspaceWithSharedRepoStorage,
                workspace@,
                path@,
            ),
            Error::RemoveCancelled => plain(ErrorKind::RemoveCancelled),
            Error::MergeSameWorkspace(name) => about(ErrorKind::MergeSameWorkspace, name@),
            Error::MergeWorkspaceMissing { role, workspace } => about2(
                ErrorKind::MergeWorkspaceMissing,
                role.label_text(),
                workspace@,
            ),
            Error::MergeWorkspaceAmbiguous { role, workspace } => about2(
                ErrorKind::MergeWorkspaceAmbiguous,
                role.label_text(),
                workspace@,
            ),
            Error::MergeWorkspaceUnavailable { role, workspace, reason } => about3(
                ErrorKind::MergeWorkspaceUnavailable,
                role.label_text(),
                workspace@,
                reason@,
            ),
            Error::MergeSourceEmpty { source_workspace, target } => about2(ErrorKind::MergeSourceEmpty, source_workspace@, target@),
            Error::MergeSourceMultipleRoots { source_workspace, target } => about2(
                ErrorKind::MergeSourceMultipleRoots,
                source_workspace@,
                target@,
            ),
            Error::MergeSourceMultipleHeads { source_workspace, target } => about2(
                ErrorKind::MergeSourceMultipleHeads,
                source_workspace@,
                target@,
            ),
            Error::MergeDuplicateRootUnknown { source_workspace } => about(ErrorKind::MergeDuplicateRootUnknown, source_workspace@),
            Error::MergeDuplicateHeadUnknown { source_workspace } => about(ErrorKind::MergeDuplicateHeadUnknown, source_workspace@),
            Error::MergeRebaseFailed { stderr } => about(ErrorKind::MergeRebaseFailed, stderr@),
            Error::WorkspaceDirectoryDeleteAfterForgetFailed { workspace, path, source } => about3(
                ErrorKind::WorkspaceDirectoryDeleteAfterForgetFailed,
                workspace@,
                path@,
                source@,
            ),
            Error::InvalidRepoPointer(path) => about(ErrorKind::InvalidRepoPointer, path@),
            Error::RepoPointerResolution { path, message } => about2(ErrorKind::RepoPointerResolution, path@, message@),
            Error::InvalidWorkspaceTemplate(value) => about(ErrorKind::InvalidWorkspaceTemplate, value@),
            Error::InvalidRepoConfig { path, message } => about2(ErrorKind::InvalidRepoConfig, path@, message@),
            Error::InvalidRepoState { path, message } => about2(ErrorKind::InvalidRepoState, path@, message@),
            Error::NoPreviousWorkspace => plain(ErrorKind::NoPreviousWorkspace),
            Error::PreviousWorkspaceNotFound(name) => about(ErrorKind::PreviousWorkspaceNotFound, name@),
            Error::PrimaryWorkspaceUnavailable => plain(ErrorKind::PrimaryWorkspaceUnavailable),
            Error::ReservedSwitchTarget(name) => about(ErrorKind::ReservedSwitchTarget, name@),
            Error::InvalidWorkspaceMetadata { path, message } => about2(ErrorKind::InvalidWorkspaceMetadata, path@, message@),
            Error::InvalidJjWorkspaceListEntry(line) => about(ErrorKind::InvalidJjWorkspaceListEntry, line@),
            Error::UnsupportedShell(shell) => about(ErrorKind::UnsupportedShell, shell@),
            Error::ShellRequired => plain(ErrorKind::ShellRequired),
            Error::ShellDetection => plain(ErrorKind::ShellDetection),
            Error::HomeDirectory => plain(ErrorKind::HomeDirectory),
            Error::InvalidShellRcFile { path, message } => about2(ErrorKind::InvalidShellRcFile, path@, message@),
            Error::ShellDirectivePathNotUtf8 => plain(ErrorKind::ShellDirectivePathNotUtf8),
            Error::JjCommandFailed { command, stderr } => about2(ErrorKind::JjCommandFailed, command@, stderr@),
            Error::UnsupportedJjVersion { found, minimum } => about2(ErrorKind::UnsupportedJjVersion, found@, minimum@),
            Error::JsonSerialization(message) => about(ErrorKind::JsonSerialization, message@),
            Error::Engine { message } => about(ErrorKind::Engine, message@),
            Error::InvalidLanePath(value) => about(ErrorKind::InvalidLanePath, value@),
            Error::InvalidLaneRegistry { path, message } => about2(ErrorKind::InvalidLaneRegistry, path@, message@),
            Error::LaneExists(name) => about(ErrorKind::LaneExists, name@),
            Error::LaneNotFound(name) => about(ErrorKind::LaneNotFound, name@),
            Error::LaneNotOpen { name, lifecycle } => about2(ErrorKind::LaneNotOpen, name@, lifecycle@),
            Error::LaneNameReserved(name) => about(ErrorKind::LaneNameReserved, name@),
            Error::LaneOverlap { path, other, other_path } => about3(ErrorKind::LaneOverlap, path@, other@, other_path@),
            Error::LaneReleaseWouldEmpty(name) => about(ErrorKind::LaneReleaseWouldEmpty, name@),
            Error::LaneTrunkMissing(name) => about(ErrorKind::LaneTrunkMissing, name@),
            Error::LaneTargetBookmarkMissing(name) => about(ErrorKind::LaneTargetBookmarkMissing, name@),
            Error::LaneTargetHygiene { target, reason } => about2(ErrorKind::LaneTargetHygiene, target@, reason@),
            Error::LaneTrunkNotReady { trunk, reason } => about2(ErrorKind::LaneTrunkNotReady, trunk@, reason@),
            Error::LaneTrunkDirtyInScope { lane, paths } => about2(ErrorKind::LaneTrunkDirtyInScope, lane@, paths@),
            Error::LaneWorkspaceMissing(name) => about(ErrorKind::LaneWorkspaceMissing, name@),
            Error::LaneNotSynced { lane, behind } => about2(
                ErrorKind::LaneNotSynced,
                lane@,
                text::decimal(*behind as nat),
            ),
            Error::LaneConflicted { lane, count } => about2(
                ErrorKind::LaneConflicted,
                lane@,
                text::decimal(*count as nat),
            ),
            Error::LaneNothingToLand(name) => about(ErrorKind::LaneNothingToLand, name@),
            Error::LaneNeedsMessage(name) => about(ErrorKind::LaneNeedsMessage, name@),
            Error::LaneUnscopedChanges { lane, paths } => about2(ErrorKind::LaneUnscopedChanges, lane@, paths@),
            Error::LaneGateFailed { command } => about(ErrorKind::LaneGateFailed, command@),
            Error::LaneNotLanded { lane } => about(ErrorKind::LaneNotLanded, lane@),
            Error::MutationLockTimeout { path, waited_ms } => about2(
                ErrorKind::MutationLockTimeout,
                path@,
                text::decimal(*waited_ms as nat),
            ),
            Error::LaneTrunkMoved { lane, expected, found } => about3(ErrorKind::LaneTrunkMoved, lane@, expected@, found@),
            Error::LaneCloseFromInside(name) => about(ErrorKind::LaneCloseFromInside, name@),
            Error::WorkspaceExistsWithRevision { workspace } => about(ErrorKind::WorkspaceExistsWithRevision, workspace@),
            Error::Io(message) => about(ErrorKind::Io, message@),
        }
    }
}

impl ErrorView {
    /// The human-readable report of an error.
    pub open spec fn message(self) -> Seq<char> {
        match self.kind {
            ErrorKind::NotInWorkspace => "error: not in a jj workspace"@,
            ErrorKind::InvalidWorkspaceName => "error: invalid workspace name '"@ + self.args[0] + "'"@,
            ErrorKind::OrphanedWorkspace => "error: current directory is no longer a registered jj workspace\nhint: cd into another workspace or recreate this workspace with jj"@,
            ErrorKind::RepoName => "error: failed to determine repo name"@,
            ErrorKind::WorkspaceRootHasNoParent => "error: workspace root has no parent: "@ + self.args[0],
            ErrorKind::WorkspaceDoesNotExist => "error: workspace does not exist\nhint: use --create"@,
            ErrorKind::WorkspaceNotFound => "error: workspace '"@ + self.args[0] + "' does not exist"@,
            ErrorKind::WorkspaceDirectoryUnavailable => "error: workspace '"@ + self.args[0] + "' exists, but its directory could not be resolved\nhint: last known path: "@ + self.args[1],
            ErrorKind::CannotRemoveCurrentWorkspace => "error: cannot remove current workspace\nhint: switch to another workspace first"@,
            ErrorKind::CannotRemoveWorkspaceWithSharedRepoStorage => "error: cannot remove workspace '"@ + self.args[0] + "' because its directory contains shared jj repo storage\nhint: navi remove only deletes workspaces whose directory does not own shared repo storage: "@ + self.args[1],
            ErrorKind::RemoveCancelled => "error: remove cancelled\nhint: rerun with --yes to skip confirmation"@,
            ErrorKind::MergeSameWorkspace => "error: cannot merge workspace '"@ + self.args[0] + "' into itself\nhint: choose a different --into workspace"@,
            ErrorKind::MergeWorkspaceMissing => "error: merge "@ + self.args[0] + " workspace '"@ + self.args[1] + "' does not exist\nhint: run navi list and choose an existing workspace"@,
            ErrorKind::MergeWorkspaceAmbiguous => "error: merge "@ + self.args[0] + " workspace '"@ + self.args[1] + "' is ambiguous\nhint: inspect jj workspace list before merging"@,
            ErrorKind::MergeWorkspaceUnavailable => "error: merge "@ + self.args[0] + " workspace '"@ + self.args[1] + "' is not ready: "@ + self.args[2] + "\nhint: run navi list and fix the workspace before merging"@,
            ErrorKind::MergeSourceEmpty => "error: merge source workspace '"@ + self.args[0] + "' has no non-empty changes not already in target workspace '"@ + self.args[1] + "'"@,
            ErrorKind::MergeSourceMultipleRoots => "error: merge source workspace '"@ + self.args[0] + "' has multiple independent roots relative to target workspace '"@ + self.args[1] + "'\nhint: merge one linear workspace stack at a time"@,
            ErrorKind::MergeSourceMultipleHeads => "error: merge source workspace '"@ + self.args[0] + "' has multiple independent heads relative to target workspace '"@ + self.args[1] + "'\nhint: merge one linear workspace stack at a time"@,
            ErrorKind::MergeDuplicateRootUnknown => "error: duplicated source workspace '"@ + self.args[0] + "', but could not identify the duplicated root change\nhint: rebase was not attempted; inspect the new duplicate with jj log"@,
            ErrorKind::MergeDuplicateHeadUnknown => "error: duplicated source workspace '"@ + self.args[0] + "', but could not identify the duplicated head change\nhint: rebase was not attempted; inspect the new duplicate with jj log"@,
            ErrorKind::MergeRebaseFailed => "error: merge stopped during rebase\nhint: duplicated work remains in the repo and source workspace was not rewritten; run jj resolve --list, resolve conflicts, then jj squash\n"@ + self.args[0],
            ErrorKind::WorkspaceDirectoryDeleteAfterForgetFailed => "error: failed to delete workspace directory after forgetting workspace '"@ + self.args[0] + "'\nhint: jj no longer tracks this workspace and navi metadata was removed; inspect and delete manually: "@ + self.args[1] + "\n"@ + self.args[2],
            ErrorKind::InvalidRepoPointer => "error: invalid repo pointer in "@ + self.args[0],
            ErrorKind::RepoPointerResolution => "error: invalid repo pointer in "@ + self.args[0] + "\n"@ + self.args[1],
            ErrorKind::InvalidWorkspaceTemplate => "error: invalid workspace template '"@ + self.args[0] + "'"@,
            ErrorKind::InvalidRepoConfig => "error: invalid repo config in "@ + self.args[0] + "\n"@ + self.args[1],
            ErrorKind::InvalidRepoState => "error: invalid repo state in "@ + self.args[0] + "\n"@ + self.args[1],
            ErrorKind::NoPreviousWorkspace => "error: no previous workspace recorded for this repository\nhint: switch to a different workspace first"@,
            ErrorKind::PreviousWorkspaceNotFound => "error: previous workspace '"@ + self.args[0] + "' no longer exists in this repository\nhint: switch to an existing workspace first"@,
            ErrorKind::PrimaryWorkspaceUnavailable => "error: primary workspace could not be resolved\nhint: run navi list and switch by workspace name"@,
            ErrorKind::ReservedSwitchTarget => "error: '"@ + self.args[0] + "' is a reserved switch target\nhint: use a workspace name with --create or --revision"@,
            ErrorKind::InvalidWorkspaceMetadata => "error: invalid workspace metadata in "@ + self.args[0] + "\n"@ + self.args[1],
            ErrorKind::InvalidJjWorkspaceListEntry => "error: invalid jj workspace list entry\n"@ + self.args[0],
            ErrorKind::UnsupportedShell => "error: unsupported shell '"@ + self.args[0] + "'"@,
            ErrorKind::ShellRequired => "error: shell name required\nhint: use one of: bash, zsh"@,
            ErrorKind::ShellDetection => "error: unable to detect shell from $SHELL"@,
            ErrorKind::HomeDirectory => "error: $HOME is not set"@,
            ErrorKind::InvalidShellRcFile => "error: invalid shell rc file at "@ + self.args[0] + "\n"@ + self.args[1],
            ErrorKind::ShellDirectivePathNotUtf8 => "error: shell integration requires a UTF-8 workspace path"@,
            ErrorKind::JjCommandFailed => "error: jj command failed: "@ + self.args[0] + "\n"@ + self.args[1],
            ErrorKind::UnsupportedJjVersion => "error: jj "@ + self.args[1] + " or newer required\nhint: found "@ + self.args[0],
            ErrorKind::JsonSerialization => "error: failed to serialize json output\n"@ + self.args[0],
            ErrorKind::Engine => "error: "@ + self.args[0],
            ErrorKind::InvalidLanePath => "error: invalid lane path '"@ + self.args[0] + "'\nhint: use repo-relative path prefixes like src/module or docs/guide.md"@,
            ErrorKind::InvalidLaneRegistry => "error: invalid lane registry in "@ + self.args[0] + "\n"@ + self.args[1],
            ErrorKind::LaneExists => "error: lane '"@ + self.args[0] + "' is already open\nhint: run navi lane list"@,
            ErrorKind::LaneNotFound => "error: lane '"@ + self.args[0] + "' is not registered\nhint: run navi lane list"@,
            ErrorKind::LaneNotOpen => "error: lane '"@ + self.args[0] + "' is "@ + self.args[1] + ", not open"@,
            ErrorKind::LaneNameReserved => "error: '"@ + self.args[0] + "' is the trunk workspace and cannot be a lane"@,
            ErrorKind::LaneOverlap => "error: lane path '"@ + self.args[0] + "' overlaps open lane '"@ + self.args[1] + "' (its path '"@ + self.args[2] + "')\nhint: coordinate with that lane or rerun with --allow-overlap"@,
            ErrorKind::LaneReleaseWouldEmpty => "error: releasing these paths would empty the write-set of lane '"@ + self.args[0] + "'\nhint: keep at least one path, or retire the lane with navi lane close or navi lane abandon"@,
            ErrorKind::LaneTrunkMissing => "error: trunk workspace '"@ + self.args[0] + "' does not exist\nhint: check [lane] trunk in navi config"@,
            ErrorKind::LaneTargetBookmarkMissing => "error: target bookmark '"@ + self.args[0] + "' does not exist\nhint: jj bookmark create "@ + self.args[0] + " -r <rev>"@,
            ErrorKind::LaneTargetHygiene => "error: landing would publish unclean history to '"@ + self.args[0] + "': "@ + self.args[1] + "\nhint: run navi resolve, navi heal, or jj describe, then land again"@,
            ErrorKind::LaneTrunkNotReady => "error: trunk workspace '"@ + self.args[0] + "' is not ready: "@ + self.args[1],
            ErrorKind::LaneTrunkDirtyInScope => "error: trunk working copy has uncommitted changes inside lane '"@ + self.args[0] + "' write-set:\n"@ + self.args[1] + "\nhint: land or restore those trunk changes first; unrelated trunk dirt does not block landing"@,
            ErrorKind::LaneWorkspaceMissing => "error: lane '"@ + self.args[0] + "' has no jj workspace\nhint: run navi lane gc to reconcile the registry"@,
            ErrorKind::LaneNotSynced => "error: lane '"@ + self.args[0] + "' is not synced onto the trunk head ("@ + self.args[1] + " trunk change(s) missing)\nhint: run navi lane sync "@ + self.args[0],
            ErrorKind::LaneConflicted => "error: lane '"@ + self.args[0] + "' has "@ + self.args[1] + " conflicted change(s)\nhint: resolve conflicts in the lane workspace, then retry"@,
            ErrorKind::LaneNothingToLand => "error: lane '"@ + self.args[0] + "' has no changes to land"@,
            ErrorKind::LaneNeedsMessage => "error: lane '"@ + self.args[0] + "' head has no description\nhint: rerun with -m to describe the landing"@,
            ErrorKind::LaneUnscopedChanges => "error: lane '"@ + self.args[0] + "' has changes outside its write-set:\n"@ + self.args[1] + "\nhint: extend the lane with navi lane claim, or drop them with navi lane sync "@ + self.args[0] + " --drop-unscoped"@,
            ErrorKind::LaneGateFailed => "error: gate command failed ("@ + self.args[0] + ")\nhint: fix the lane and retry, or land with --no-gate if the "@ + "gate itself is broken"@,
            ErrorKind::LaneNotLanded => "error: lane '"@ + self.args[0] + "' still has unlanded work\nhint: land it first, or use navi lane abandon to archive and discard"@,
            ErrorKind::MutationLockTimeout => "error: another navi operation is holding the repo lock at "@ + self.args[0] + "\nhint: waited "@ + self.args[1] + "ms; retry, or raise NAVI_LOCK_TIMEOUT_MS"@,
            ErrorKind::LaneTrunkMoved => "error: trunk head moved while landing lane '"@ + self.args[0] + "' (was "@ + self.args[1] + ", now "@ + self.args[2] + ")\nhint: run navi lane sync "@ + self.args[0] + ", then land again"@,
            ErrorKind::LaneCloseFromInside => "error: cannot close lane '"@ + self.args[0] + "' from inside its own workspace\nhint: run from the trunk workspace, or omit --close"@,
            ErrorKind::WorkspaceExistsWithRevision => "error: workspace '"@ + self.args[0] + "' already exists; --revision only applies when creating\nhint: drop -r to switch, or pick a new workspace name"@,
            ErrorKind::Io => self.args[0],
        }
    }

    /// The stable machine-readable code of an error.
    pub open spec fn code(self) -> Seq<char> {
        kind_code(self.kind)
    }

    /// The report with the code put in.
    pub open spec fn rendered(self) -> Seq<char> {
        let message = self.message();
        if text::starts_with(message, "error:"@) {
            "error["@ + self.code() + "]:"@ + message.skip("error:"@.len() as int)
        } else {
            "error["@ + self.code() + "]: "@ + message
        }
    }
}

/// The stable machine-readable code of a kind of error.
pub open spec fn kind_code(kind: ErrorKind) -> Seq<char> {
    match kind {
        ErrorKind::NotInWorkspace => "not-in-workspace"@,
        ErrorKind::InvalidWorkspaceName => "invalid-workspace-name"@,
        ErrorKind::OrphanedWorkspace => "orphaned-workspace"@,
        ErrorKind::RepoName => "repo-name"@,
        ErrorKind::WorkspaceRootHasNoParent => "workspace-root-has-no-parent"@,
        ErrorKind::WorkspaceDoesNotExist => "workspace-does-not-exist"@,
        ErrorKind::WorkspaceNotFound => "workspace-not-found"@,
        ErrorKind::WorkspaceDirectoryUnavailable => "workspace-directory-unavailable"@,
        ErrorKind::CannotRemoveCurrentWorkspace => "cannot-remove-current-workspace"@,
        ErrorKind::CannotRemoveWorkspaceWithSharedRepoStorage => "cannot-remove-workspace-with-shared-repo-storage"@,
        ErrorKind::RemoveCancelled => "remove-cancelled"@,
        ErrorKind::MergeSameWorkspace => "merge-same-workspace"@,
        ErrorKind::MergeWorkspaceMissing => "merge-workspace-missing"@,
        ErrorKind::MergeWorkspaceAmbiguous => "merge-workspace-ambiguous"@,
        ErrorKind::MergeWorkspaceUnavailable => "merge-workspace-unavailable"@,
        ErrorKind::MergeSourceEmpty => "merge-source-empty"@,
        ErrorKind::MergeSourceMultipleRoots => "merge-source-multiple-roots"@,
        ErrorKind::MergeSourceMultipleHeads => "merge-source-multiple-heads"@,
        ErrorKind::MergeDuplicateRootUnknown => "merge-duplicate-root-unknown"@,
        ErrorKind::MergeDuplicateHeadUnknown => "merge-duplicate-head-unknown"@,
        ErrorKind::MergeRebaseFailed => "merge-rebase-failed"@,
        ErrorKind::WorkspaceDirectoryDeleteAfterForgetFailed => "workspace-directory-delete-after-forget-failed"@,
        ErrorKind::InvalidRepoPointer => "invalid-repo-pointer"@,
        ErrorKind::RepoPointerResolution => "repo-pointer-resolution"@,
        ErrorKind::InvalidWorkspaceTemplate => "invalid-workspace-template"@,
        ErrorKind::InvalidRepoConfig => "invalid-repo-config"@,
        ErrorKind::InvalidRepoState => "invalid-repo-state"@,
        ErrorKind::NoPreviousWorkspace => "no-previous-workspace"@,
        ErrorKind::PreviousWorkspaceNotFound => "previous-workspace-not-found"@,
        ErrorKind::PrimaryWorkspaceUnavailable => "primary-workspace-unavailable"@,
        ErrorKind::ReservedSwitchTarget => "reserved-switch-target"@,
        ErrorKind::InvalidWorkspaceMetadata => "invalid-workspace-metadata"@,
        ErrorKind::InvalidJjWorkspaceListEntry => "invalid-jj-workspace-list-entry"@,
        ErrorKind::UnsupportedShell => "unsupported-shell"@,
        ErrorKind::ShellRequired => "shell-required"@,
        ErrorKind::ShellDetection => "shell-detection"@,
        ErrorKind::HomeDirectory => "home-directory"@,
        ErrorKind::InvalidShellRcFile => "invalid-shell-rc-file"@,
        ErrorKind::ShellDirectivePathNotUtf8 => "shell-directive-path-not-utf8"@,
        ErrorKind::JjCommandFailed => "jj-command-failed"@,
        ErrorKind::UnsupportedJjVersion => "unsupported-jj-version"@,
        ErrorKind::JsonSerialization => "json-serialization"@,
        ErrorKind::Engine => "engine"@,
        ErrorKind::InvalidLanePath => "invalid-lane-path"@,
        ErrorKind::InvalidLaneRegistry => "invalid-lane-registry"@,
        ErrorKind::LaneExists => "lane-exists"@,
        ErrorKind::LaneNotFound => "lane-not-found"@,
        ErrorKind::LaneNotOpen => "lane-not-open"@,
        ErrorKind::LaneNameReserved => "lane-name-reserved"@,
        ErrorKind::LaneOverlap => "lane-overlap"@,
        ErrorKind::LaneReleaseWouldEmpty => "lane-release-would-empty"@,
        ErrorKind::LaneTrunkMissing => "lane-trunk-missing"@,
        ErrorKind::LaneTargetBookmarkMissing => "target-bookmark-missing"@,
        ErrorKind::LaneTargetHygiene => "target-hygiene"@,
        ErrorKind::LaneTrunkNotReady => "lane-trunk-not-ready"@,
        ErrorKind::LaneTrunkDirtyInScope => "lane-trunk-dirty-in-scope"@,
        ErrorKind::LaneWorkspaceMissing => "lane-workspace-missing"@,
        ErrorKind::LaneNotSynced => "lane-not-synced"@,
        ErrorKind::LaneConflicted => "lane-conflicted"@,
        ErrorKind::LaneNothingToLand => "lane-nothing-to-land"@,
        ErrorKind::LaneNeedsMessage => "lane-needs-message"@,
        ErrorKind::LaneUnscopedChanges => "lane-unscoped-changes"@,
        ErrorKind::LaneGateFailed => "gate-failed"@,
        ErrorKind::LaneNotLanded => "lane-not-landed"@,
        ErrorKind::MutationLockTimeout => "mutation-lock-timeout"@,
        ErrorKind::LaneTrunkMoved => "trunk-moved"@,
        ErrorKind::LaneCloseFromInside => "lane-close-from-inside"@,
        ErrorKind::WorkspaceExistsWithRevision => "workspace-exists-with-revision"@,
        ErrorKind::Io => "io"@,
    }
}

/// Lower-case letters, digits and hyphens.
pub open spec fn is_kebab(code: Seq<char>) -> bool {
    code.len() > 0 && forall|i: int|
        0 <= i < code.len() ==> ('a' <= #[trigger] code[i] <= 'z' || '0' <= code[i] <= '9'
            || code[i] == '-')
}

/// What tells one code from another: its length and two of its characters.
spec fn code_marks(code: Seq<char>) -> (int, char, char) {
    let length: int = code.len() as int;
    (length, code[length * 3 / 5], code[length * 5 / 6])
}

/// The marks of each error's code.
spec fn kind_marks(kind: ErrorKind) -> (int, char, char) {
    match kind {
        ErrorKind::NotInWorkspace => (16, 'r', 'a'),
        ErrorKind::InvalidWorkspaceName => (22, 'p', 'n'),
        ErrorKind::OrphanedWorkspace => (18, 'o', 'a'),
        ErrorKind::RepoName => (9, 'n', 'm'),
        ErrorKind::WorkspaceRootHasNoParent => (28, 'a', 'a'),
        ErrorKind::WorkspaceDoesNotExist => (24, '-', 'x'),
        ErrorKind::WorkspaceNotFound => (19, 'o', 'o'),
        ErrorKind::WorkspaceDirectoryUnavailable => (31, 'y', 'i'),
        ErrorKind::CannotRemoveCurrentWorkspace => (31, 'e', 'k'),
        ErrorKind::CannotRemoveWorkspaceWithSharedRepoStorage => (48, '-', '-'),
        ErrorKind::RemoveCancelled => (16, 'n', 'l'),
        ErrorKind::MergeSameWorkspace => (20, 'o', 'p'),
        ErrorKind::MergeWorkspaceMissing => (23, 'c', 's'),
        ErrorKind::MergeWorkspaceAmbiguous => (25, '-', 'g'),
        ErrorKind::MergeWorkspaceUnavailable => (27, 'u', 'l'),
        ErrorKind::MergeSourceEmpty => (18, 'c', 'p'),
        ErrorKind::MergeSourceMultipleRoots => (27, 't', 'r'),
        ErrorKind::MergeSourceMultipleHeads => (27, 't', 'h'),
        ErrorKind::MergeDuplicateRootUnknown => (28, 'r', 'k'),
        ErrorKind::MergeDuplicateHeadUnknown => (28, 'h', 'k'),
        ErrorKind::MergeRebaseFailed => (19, 'e', 'i'),
        ErrorKind::WorkspaceDirectoryDeleteAfterForgetFailed => (46, 'a', 't'),
        ErrorKind::InvalidRepoPointer => (20, '-', 'n'),
        ErrorKind::RepoPointerResolution => (23, 'r', 't'),
        ErrorKind::InvalidWorkspaceTemplate => (26, 'c', 'p'),
        ErrorKind::InvalidRepoConfig => (19, 'o', 'n'),
        ErrorKind::InvalidRepoState => (18, 'p', 'a'),
        ErrorKind::NoPreviousWorkspace => (21, 'w', 'p'),
        ErrorKind::PreviousWorkspaceNotFound => (28, 'c', 'f'),
        ErrorKind::PrimaryWorkspaceUnavailable => (29, '-', 'l'),
        ErrorKind::ReservedSwitchTarget => (22, 'c', 'r'),
        ErrorKind::InvalidWorkspaceMetadata => (26, 'c', 'a'),
        ErrorKind::InvalidJjWorkspaceListEntry => (31, 'c', '-'),
        ErrorKind::UnsupportedShell => (17, 'd', 'e'),
        ErrorKind::ShellRequired => (14, 'q', 'r'),
        ErrorKind::ShellDetection => (15, 'e', 'i'),
        ErrorKind::HomeDirectory => (14, 'e', 'o'),
        ErrorKind::InvalidShellRcFile => (21, 'l', 'f'),
        ErrorKind::ShellDirectivePathNotUtf8 => (29, 'a', '-'),
        ErrorKind::JjCommandFailed => (17, '-', 'l'),
        ErrorKind::UnsupportedJjVersion => (22, 'j', 's'),
        ErrorKind::JsonSerialization => (18, 'l', 'i'),
        ErrorKind::Engine => (6, 'i', 'e'),
        ErrorKind::InvalidLanePath => (17, 'n', 'a'),
        ErrorKind::InvalidLaneRegistry => (21, '-', 's'),
        ErrorKind::LaneExists => (11, 'x', 't'),
        ErrorKind::LaneNotFound => (14, '-', 'u'),
        ErrorKind::LaneNotOpen => (13, 't', 'p'),
        ErrorKind::LaneNameReserved => (18, 'r', 'v'),
        ErrorKind::LaneOverlap => (12, 'e', 'a'),
        ErrorKind::LaneReleaseWouldEmpty => (24, 'o', 'm'),
        ErrorKind::LaneTrunkMissing => (18, '-', 'i'),
        ErrorKind::LaneTargetBookmarkMissing => (23, 'r', 's'),
        ErrorKind::LaneTargetHygiene => (14, 'y', 'e'),
        ErrorKind::LaneTrunkNotReady => (20, 'o', 'e'),
        ErrorKind::LaneTrunkDirtyInScope => (25, 'y', 's'),
        ErrorKind::LaneWorkspaceMissing => (22, 'e', 's'),
        ErrorKind::LaneNotSynced => (15, 's', 'c'),
        ErrorKind::LaneConflicted => (15, 'l', 't'),
        ErrorKind::LaneNothingToLand => (20, '-', 'l'),
        ErrorKind::LaneNeedsMessage => (18, '-', 'a'),
        ErrorKind::LaneUnscopedChanges => (21, 'd', 'n'),
        ErrorKind::LaneGateFailed => (11, 'a', 'e'),
        ErrorKind::LaneNotLanded => (15, 'l', 'd'),
        ErrorKind::MutationLockTimeout => (21, 'k', 'e'),
        ErrorKind::LaneTrunkMoved => (11, 'm', 'e'),
        ErrorKind::LaneCloseFromInside => (22, 'o', 's'),
        ErrorKind::WorkspaceExistsWithRevision => (30, 'i', 'i'),
        ErrorKind::Io => (2, 'o', 'o'),
    }
}

proof fn lemma_code_shape(kind: ErrorKind)
    ensures
        code_marks(kind_code(kind)) == kind_marks(kind),
        is_kebab(kind_code(kind)),
{
    match kind {
        ErrorKind::NotInWorkspace => {
            reveal_strlit("not-in-workspace");
        },
        ErrorKind::InvalidWorkspaceName => {
            reveal_strlit("invalid-workspace-name");
        },
        ErrorKind::OrphanedWorkspace => {
            reveal_strlit("orphaned-workspace");
        },
        ErrorKind::RepoName => {
            reveal_strlit("repo-name");
        },
        ErrorKind::WorkspaceRootHasNoParent => {
            reveal_strlit("workspace-root-has-no-parent");
        },
        ErrorKind::WorkspaceDoesNotExist => {
            reveal_strlit("workspace-does-not-exist");
        },
        ErrorKind::WorkspaceNotFound => {
            reveal_strlit("workspace-not-found");
        },
        ErrorKind::WorkspaceDirectoryUnavailable => {
            reveal_strlit("workspace-directory-unavailable");
        },
        ErrorKind::CannotRemoveCurrentWorkspace => {
            reveal_strlit("cannot-remove-current-workspace");
        },
        ErrorKind::CannotRemoveWorkspaceWithSharedRepoStorage => {
            reveal_strlit("cannot-remove-workspace-with-shared-repo-storage");
        },
        ErrorKind::RemoveCancelled => {
            reveal_strlit("remove-cancelled");
        },
        ErrorKind::MergeSameWorkspace => {
            reveal_strlit("merge-same-workspace");
        },
        ErrorKind::MergeWorkspaceMissing => {
            reveal_strlit("merge-workspace-missing");
        },
        ErrorKind::MergeWorkspaceAmbiguous => {
            reveal_strlit("merge-workspace-ambiguous");
        },
        ErrorKind::MergeWorkspaceUnavailable => {
            reveal_strlit("merge-workspace-unavailable");
        },
        ErrorKind::MergeSourceEmpty => {
            reveal_strlit("merge-source-empty");
        },
        ErrorKind::MergeSourceMultipleRoots => {
            reveal_strlit("merge-source-multiple-roots");
        },
        ErrorKind::MergeSourceMultipleHeads => {
            reveal_strlit("merge-source-multiple-heads");
        },
        ErrorKind::MergeDuplicateRootUnknown => {
            reveal_strlit("merge-duplicate-root-unknown");
        },
        ErrorKind::MergeDuplicateHeadUnknown => {
            reveal_strlit("merge-duplicate-head-unknown");
        },
        ErrorKind::MergeRebaseFailed => {
            reveal_strlit("merge-rebase-failed");
        },
        ErrorKind::WorkspaceDirectoryDeleteAfterForgetFailed => {
            reveal_strlit("workspace-directory-delete-after-forget-failed");
        },
        ErrorKind::InvalidRepoPointer => {
            reveal_strlit("invalid-repo-pointer");
        },
        ErrorKind::RepoPointerResolution => {
            reveal_strlit("repo-pointer-resolution");
        },
        ErrorKind::InvalidWorkspaceTemplate => {
            reveal_strlit("invalid-workspace-template");
        },
        ErrorKind::InvalidRepoConfig => {
            reveal_strlit("invalid-repo-config");
        },
        ErrorKind::InvalidRepoState => {
            reveal_strlit("invalid-repo-state");
        },
        ErrorKind::NoPreviousWorkspace => {
            reveal_strlit("no-previous-workspace");
        },
        ErrorKind::PreviousWorkspaceNotFound => {
            reveal_strlit("previous-workspace-not-found");
        },
        ErrorKind::PrimaryWorkspaceUnavailable => {
            reveal_strlit("primary-workspace-unavailable");
        },
        ErrorKind::ReservedSwitchTarget => {
            reveal_strlit("reserved-switch-target");
        },
        ErrorKind::InvalidWorkspaceMetadata => {
            reveal_strlit("invalid-workspace-metadata");
        },
        ErrorKind::InvalidJjWorkspaceListEntry => {
            reveal_strlit("invalid-jj-workspace-list-entry");
        },
        ErrorKind::UnsupportedShell => {
            reveal_strlit("unsupported-shell");
        },
        ErrorKind::ShellRequired => {
            reveal_strlit("shell-required");
        },
        ErrorKind::ShellDetection => {
            reveal_strlit("shell-detection");
        },
        ErrorKind::HomeDirectory => {
            reveal_strlit("home-directory");
        },
        ErrorKind::InvalidShellRcFile => {
            reveal_strlit("invalid-shell-rc-file");
        },
        ErrorKind::ShellDirectivePathNotUtf8 => {
            reveal_strlit("shell-directive-path-not-utf8");
        },
        ErrorKind::JjCommandFailed => {
            reveal_strlit("jj-command-failed");
        },
        ErrorKind::UnsupportedJjVersion => {
            reveal_strlit("unsupported-jj-version");
        },
        ErrorKind::JsonSerialization => {
            reveal_strlit("json-serialization");
        },
        ErrorKind::Engine => {
            reveal_strlit("engine");
        },
        ErrorKind::InvalidLanePath => {
            reveal_strlit("invalid-lane-path");
        },
        ErrorKind::InvalidLaneRegistry => {
            reveal_strlit("invalid-lane-registry");
        },
        ErrorKind::LaneExists => {
            reveal_strlit("lane-exists");
        },
        ErrorKind::LaneNotFound => {
            reveal_strlit("lane-not-found");
        },
        ErrorKind::LaneNotOpen => {
            reveal_strlit("lane-not-open");
        },
        ErrorKind::LaneNameReserved => {
            reveal_strlit("lane-name-reserved");
        },
        ErrorKind::LaneOverlap => {
            reveal_strlit("lane-overlap");
        },
        ErrorKind::LaneReleaseWouldEmpty => {
            reveal_strlit("lane-release-would-empty");
        },
        ErrorKind::LaneTrunkMissing => {
            reveal_strlit("lane-trunk-missing");
        },
        ErrorKind::LaneTargetBookmarkMissing => {
            reveal_strlit("target-bookmark-missing");
        },
        ErrorKind::LaneTargetHygiene => {
            reveal_strlit("target-hygiene");
        },
        ErrorKind::LaneTrunkNotReady => {
            reveal_strlit("lane-trunk-not-ready");
        },
        ErrorKind::LaneTrunkDirtyInScope => {
            reveal_strlit("lane-trunk-dirty-in-scope");
        },
        ErrorKind::LaneWorkspaceMissing => {
            reveal_strlit("lane-workspace-missing");
        },
        ErrorKind::LaneNotSynced => {
            reveal_strlit("lane-not-synced");
        },
        ErrorKind::LaneConflicted => {
            reveal_strlit("lane-conflicted");
        },
        ErrorKind::LaneNothingToLand => {
            reveal_strlit("lane-nothing-to-land");
        },
        ErrorKind::LaneNeedsMessage => {
            reveal_strlit("lane-needs-message");
        },
        ErrorKind::LaneUnscopedChanges => {
            reveal_strlit("lane-unscoped-changes");
        },
        ErrorKind::LaneGateFailed => {
            reveal_strlit("gate-failed");
        },
        ErrorKind::LaneNotLanded => {
            reveal_strlit("lane-not-landed");
        },
        ErrorKind::MutationLockTimeout => {
            reveal_strlit("mutation-lock-timeout");
        },
        ErrorKind::LaneTrunkMoved => {
            reveal_strlit("trunk-moved");
        },
        ErrorKind::LaneCloseFromInside => {
            reveal_strlit("lane-close-from-inside");
        },
        ErrorKind::WorkspaceExistsWithRevision => {
            reveal_strlit("workspace-exists-with-revision");
        },
        ErrorKind::Io => {
            reveal_strlit("io");
        },
    }
}

/// No two errors share a code.
#[verifier::spinoff_prover]
pub proof fn law_codes_are_distinct(a: ErrorKind, b: ErrorKind)
    requires
        kind_code(a) == kind_code(b),
    ensures
        a == b,
{
    lemma_code_shape(a);
    lemma_code_shape(b);
}

/// Every error has a code in kebab case.
pub proof fn law_codes_are_kebab_case(kind: ErrorKind)
    ensures
        is_kebab(kind_code(kind)),
{
    lemma_code_shape(kind);
}

impl Error {
    /// The human-readable report of this error.
    pub fn message(&self) -> (res: String)
        ensures
            res@ == self@.message(),
    {
        match self {
            Error::NotInWorkspace => copy("error: not in a jj workspace"),
            Error::InvalidWorkspaceName(value) => {
                let mut out = copy("error: invalid workspace name '");
                out.append(value.as_str());
                out.append("'");
                out
            },
            Error::OrphanedWorkspace => copy("error: current directory is no longer a registered jj workspace\nhint: cd into another workspace or recreate this workspace with jj"),
            Error::RepoName => copy("error: failed to determine repo name"),
            Error::WorkspaceRootHasNoParent(path) => {
                let mut out = copy("error: workspace root has no parent: ");
                out.append(path.as_str());
                out
            },
            Error::WorkspaceDoesNotExist => copy("error: workspace does not exist\nhint: use --create"),
            Error::WorkspaceNotFound(name) => {
                let mut out = copy("error: workspace '");
                out.append(name.as_str());
                out.append("' does not exist");
                out
            },
            Error::WorkspaceDirectoryUnavailable { workspace, path } => {
                let mut out = copy("error: workspace '");
                out.append(workspace.as_str());
                out.append("' exists, but its directory could not be resolved\nhint: last known path: ");
                out.append(path.as_str());
                out
            },
            Error::CannotRemoveCurrentWorkspace => copy("error: cannot remove current workspace\nhint: switch to another workspace first"),
            Error::CannotRemoveWorkspaceWithSharedRepoStorage { workspace, path } => {
                let mut out = copy("error: cannot remove workspace '");
                out.append(workspace.as_str());
                out.append("' because its directory contains shared jj repo storage\nhint: navi remove only deletes workspaces whose directory does not own shared repo storage: ");
                out.append(path.as_str());
                out
            },
            Error::RemoveCancelled => copy("error: remove cancelled\nhint: rerun with --yes to skip confirmation"),
            Error::MergeSameWorkspace(name) => {
                let mut out = copy("error: cannot merge workspace '");
                out.append(name.as_str());
                out.append("' into itself\nhint: choose a different --into workspace");
                out
            },
            Error::MergeWorkspaceMissing { role, workspace } => {
                let mut out = copy("error: merge ");
                out.append(role.label());
                out.append(" workspace '");
                out.append(workspace.as_str());
                out.append("' does not exist\nhint: run navi list and choose an existing workspace");
                out
            },
            Error::MergeWorkspaceAmbiguous { role, workspace } => {
                let mut out = copy("error: merge ");
                out.append(role.label());
                out.append(" workspace '");
                out.append(workspace.as_str());
                out.append("' is ambiguous\nhint: inspect jj workspace list before merging");
                out
            },
            Error::MergeWorkspaceUnavailable { role, workspace, reason } => {
                let mut out = copy("error: merge ");
                out.append(role.label());
                out.append(" workspace '");
                out.append(workspace.as_str());
                out.append("' is not ready: ");
                out.append(reason.as_str());
                out.append("\nhint: run navi list and fix the workspace before merging");
                out
            },
            Error::MergeSourceEmpty { source_workspace, target } => {
                let mut out = copy("error: merge source workspace '");
                out.append(source_workspace.as_str());
                out.append("' has no non-empty changes not already in target workspace '");
                out.append(target.as_str());
                out.append("'");
                out
            },
            Error::MergeSourceMultipleRoots { source_workspace, target } => {
                let mut out = copy("error: merge source workspace '");
                out.append(source_workspace.as_str());
                out.append("' has multiple independent roots relative to target workspace '");
                out.append(target.as_str());
                out.append("'\nhint: merge one linear workspace stack at a time");
                out
            },
            Error::MergeSourceMultipleHeads { source_workspace, target } => {
                let mut out = copy("error: merge source workspace '");
                out.append(source_workspace.as_str());
                out.append("' has multiple independent heads relative to target workspace '");
                out.append(target.as_str());
                out.append("'\nhint: merge one linear workspace stack at a time");
                out
            },
            Error::MergeDuplicateRootUnknown { source_workspace } => {
                let mut out = copy("error: duplicated source workspace '");
                out.append(source_workspace.as_str());
                out.append("', but could not identify the duplicated root change\nhint: rebase was not attempted; inspect the new duplicate with jj log");
                out
            },
            Error::MergeDuplicateHeadUnknown { source_workspace } => {
                let mut out = copy("error: duplicated source workspace '");
                out.append(source_workspace.as_str());
                out.append("', but could not identify the duplicated head change\nhint: rebase was not attempted; inspect the new duplicate with jj log");
                out
            },
            Error::MergeRebaseFailed { stderr } => {
                let mut out = copy("error: merge stopped during rebase\nhint: duplicated work remains in the repo and source workspace was not rewritten; run jj resolve --list, resolve conflicts, then jj squash\n");
                out.append(stderr.as_str());
                out
            },
            Error::WorkspaceDirectoryDeleteAfterForgetFailed { workspace, path, source } => {
                let mut out = copy("error: failed to delete workspace directory after forgetting workspace '");
                out.append(workspace.as_str());
                out.append("'\nhint: jj no longer tracks this workspace and navi metadata was removed; inspect and delete manually: ");
                out.append(path.as_str());
                out.append("\n");
                out.append(source.as_str());
                out
            },
            Error::InvalidRepoPointer(path) => {
                let mut out = copy("error: invalid repo pointer in ");
                out.append(path.as_str());
                out
            },
            Error::RepoPointerResolution { path, message } => {
                let mut out = copy("error: invalid repo pointer in ");
                out.append(path.as_str());
                out.append("\n");
                out.append(message.as_str());
                out
            },
            Error::InvalidWorkspaceTemplate(value) => {
                let mut out = copy("error: invalid workspace template '");
                out.append(value.as_str());
                out.append("'");
                out
            },
            Error::InvalidRepoConfig { path, message } => {
                let mut out = copy("error: invalid repo config in ");
                out.append(path.as_str());
                out.append("\n");
                out.append(message.as_str());
                out
            },
            Error::InvalidRepoState { path, message } => {
                let mut out = copy("error: invalid repo state in ");
                out.append(path.as_str());
                out.append("\n");
                out.append(message.as_str());
                out
            },
            Error::NoPreviousWorkspace => copy("error: no previous workspace recorded for this repository\nhint: switch to a different workspace first"),
            Error::PreviousWorkspaceNotFound(name) => {
                let mut out = copy("error: previous workspace '");
                out.append(name.as_str());
                out.append("' no longer exists in this repository\nhint: switch to an existing workspace first");
                out
            },
            Error::PrimaryWorkspaceUnavailable => copy("error: primary workspace could not be resolved\nhint: run navi list and switch by workspace name"),
            Error::ReservedSwitchTarget(name) => {
                let mut out = copy("error: '");
                out.append(name.as_str());
                out.append("' is a reserved switch target\nhint: use a workspace name with --create or --revision");
                out
            },
            Error::InvalidWorkspaceMetadata { path, message } => {
                let mut out = copy("error: invalid workspace metadata in ");
                out.append(path.as_str());
                out.append("\n");
                out.append(message.as_str());
                out
            },
            Error::InvalidJjWorkspaceListEntry(line) => {
                let mut out = copy("error: invalid jj workspace list entry\n");
                out.append(line.as_str());
                out
            },
            Error::UnsupportedShell(shell) => {
                let mut out = copy("error: unsupported shell '");
                out.append(shell.as_str());
                out.append("'");
                out
            },
            Error::ShellRequired => copy("error: shell name required\nhint: use one of: bash, zsh"),
            Error::ShellDetection => copy("error: unable to detect shell from $SHELL"),
            Error::HomeDirectory => copy("error: $HOME is not set"),
            Error::InvalidShellRcFile { path, message } => {
                let mut out = copy("error: invalid shell rc file at ");
                out.append(path.as_str());
                out.append("\n");
                out.append(message.as_str());
                out
            },
            Error::ShellDirectivePathNotUtf8 => copy("error: shell integration requires a UTF-8 workspace path"),
            Error::JjCommandFailed { command, stderr } => {
                let mut out = copy("error: jj command failed: ");
                out.append(command.as_str());
                out.append("\n");
                out.append(stderr.as_str());
                out
            },
            Error::UnsupportedJjVersion { found, minimum } => {
                let mut out = copy("error: jj ");
                out.append(minimum.as_str());
                out.append(" or newer required\nhint: found ");
                out.append(found.as_str());
                out
            },
            Error::JsonSerialization(message) => {
                let mut out = copy("error: failed to serialize json output\n");
                out.append(message.as_str());
                out
            },
            Error::Engine { message } => {
                let mut out = copy("error: ");
                out.append(message.as_str());
                out
            },
            Error::InvalidLanePath(value) => {
                let mut out = copy("error: invalid lane path '");
                out.append(value.as_str());
                out.append("'\nhint: use repo-relative path prefixes like src/module or docs/guide.md");
                out
            },
            Error::InvalidLaneRegistry { path, message } => {
                let mut out = copy("error: invalid lane registry in ");
                out.append(path.as_str());
                out.append("\n");
                out.append(message.as_str());
                out
            },
            Error::LaneExists(name) => {
                let mut out = copy("error: lane '");
                out.append(name.as_str());
                out.append("' is already open\nhint: run navi lane list");
                out
            },
            Error::LaneNotFound(name) => {
                let mut out = copy("error: lane '");
                out.append(name.as_str());
                out.append("' is not registered\nhint: run navi lane list");
                out
            },
            Error::LaneNotOpen { name, lifecycle } => {
                let mut out = copy("error: lane '");
                out.append(name.as_str());
                out.append("' is ");
                out.append(lifecycle.as_str());
                out.append(", not open");
                out
            },
            Error::LaneNameReserved(name) => {
                let mut out = copy("error: '");
                out.append(name.as_str());
                out.append("' is the trunk workspace and cannot be a lane");
                out
            },
            Error::LaneOverlap { path, other, other_path } => {
                let mut out = copy("error: lane path '");
                out.append(path.as_str());
                out.append("' overlaps open lane '");
                out.append(other.as_str());
                out.append("' (its path '");
                out.append(other_path.as_str());
                out.append("')\nhint: coordinate with that lane or rerun with --allow-overlap");
                out
            },
            Error::LaneReleaseWouldEmpty(name) => {
                let mut out = copy("error: releasing these paths would empty the write-set of lane '");
                out.append(name.as_str());
                out.append("'\nhint: keep at least one path, or retire the lane with navi lane close or navi lane abandon");
                out
            },
            Error::LaneTrunkMissing(name) => {
                let mut out = copy("error: trunk workspace '");
                out.append(name.as_str());
                out.append("' does not exist\nhint: check [lane] trunk in navi config");
                out
            },
            Error::LaneTargetBookmarkMissing(name) => {
                let mut out = copy("error: target bookmark '");
                out.append(name.as_str());
                out.append("' does not exist\nhint: jj bookmark create ");
                out.append(name.as_str());
                out.append(" -r <rev>");
                out
            },
            Error::LaneTargetHygiene { target, reason } => {
                let mut out = copy("error: landing would publish unclean history to '");
                out.append(target.as_str());
                out.append("': ");
                out.append(reason.as_str());
                out.append("\nhint: run navi resolve, navi heal, or jj describe, then land again");
                out
            },
            Error::LaneTrunkNotReady { trunk, reason } => {
                let mut out = copy("error: trunk workspace '");
                out.append(trunk.as_str());
                out.append("' is not ready: ");
                out.append(reason.as_str());
                out
            },
            Error::LaneTrunkDirtyInScope { lane, paths } => {
                let mut out = copy("error: trunk working copy has uncommitted changes inside lane '");
                out.append(lane.as_str());
                out.append("' write-set:\n");
                out.append(paths.as_str());
                out.append("\nhint: land or restore those trunk changes first; unrelated trunk dirt does not block landing");
                out
            },
            Error::LaneWorkspaceMissing(name) => {
                let mut out = copy("error: lane '");
                out.append(name.as_str());
                out.append("' has no jj workspace\nhint: run navi lane gc to reconcile the registry");
                out
            },
            Error::LaneNotSynced { lane, behind } => {
                let mut out = copy("error: lane '");
                out.append(lane.as_str());
                out.append("' is not synced onto the trunk head (");
                out.append(size_number(*behind).as_str());
                out.append(" trunk change(s) missing)\nhint: run navi lane sync ");
                out.append(lane.as_str());
                out
            },
            Error::LaneConflicted { lane, count } => {
                let mut out = copy("error: lane '");
                out.append(lane.as_str());
                out.append("' has ");
                out.append(size_number(*count).as_str());
                out.append(" conflicted change(s)\nhint: resolve conflicts in the lane workspace, then retry");
                out
            },
            Error::LaneNothingToLand(name) => {
                let mut out = copy("error: lane '");
                out.append(name.as_str());
                out.append("' has no changes to land");
                out
            },
            Error::LaneNeedsMessage(name) => {
                let mut out = copy("error: lane '");
                out.append(name.as_str());
                out.append("' head has no description\nhint: rerun with -m to describe the landing");
                out
            },
            Error::LaneUnscopedChanges { lane, paths } => {
                let mut out = copy("error: lane '");
                out.append(lane.as_str());
                out.append("' has changes outside its write-set:\n");
                out.append(paths.as_str());
                out.append("\nhint: extend the lane with navi lane claim, or drop them with navi lane sync ");
                out.append(lane.as_str());
                out.append(" --drop-unscoped");
                out
            },
            Error::LaneGateFailed { command } => {
                let mut out = copy("error: gate command failed (");
                out.append(command.as_str());
                out.append(")\nhint: fix the lane and retry, or land with --no-gate if the ");
                out.append("gate itself is broken");
                out
            },
            Error::LaneNotLanded { lane } => {
                let mut out = copy("error: lane '");
                out.append(lane.as_str());
                out.append("' still has unlanded work\nhint: land it first, or use navi lane abandon to archive and discard");
                out
            },
            Error::MutationLockTimeout { path, waited_ms } => {
                let mut out = copy("error: another navi operation is holding the repo lock at ");
                out.append(path.as_str());
                out.append("\nhint: waited ");
                out.append(number(*waited_ms).as_str());
                out.append("ms; retry, or raise NAVI_LOCK_TIMEOUT_MS");
                out
            },
            Error::LaneTrunkMoved { lane, expected, found } => {
                let mut out = copy("error: trunk head moved while landing lane '");
                out.append(lane.as_str());
                out.append("' (was ");
                out.append(expected.as_str());
                out.append(", now ");
                out.append(found.as_str());
                out.append(")\nhint: run navi lane sync ");
                out.append(lane.as_str());
                out.append(", then land again");
                out
            },
            Error::LaneCloseFromInside(name) => {
                let mut out = copy("error: cannot close lane '");
                out.append(name.as_str());
                out.append("' from inside its own workspace\nhint: run from the trunk workspace, or omit --close");
                out
            },
            Error::WorkspaceExistsWithRevision { workspace } => {
                let mut out = copy("error: workspace '");
                out.append(workspace.as_str());
                out.append("' already exists; --revision only applies when creating\nhint: drop -r to switch, or pick a new workspace name");
                out
            },
            Error::Io(message) => copy(message.as_str()),
        }
    }

    /// Which error this is.
    pub fn kind(&self) -> (res: ErrorKind)
        ensures
            res == self@.kind,
    {
        match self {
            Error::NotInWorkspace => ErrorKind::NotInWorkspace,
            Error::InvalidWorkspaceName(_) => ErrorKind::InvalidWorkspaceName,
            Error::OrphanedWorkspace => ErrorKind::OrphanedWorkspace,
            Error::RepoName => ErrorKind::RepoName,
            Error::WorkspaceRootHasNoParent(_) => ErrorKind::WorkspaceRootHasNoParent,
            Error::WorkspaceDoesNotExist => ErrorKind::WorkspaceDoesNotExist,
            Error::WorkspaceNotFound(_) => ErrorKind::WorkspaceNotFound,
            Error::WorkspaceDirectoryUnavailable { .. } => ErrorKind::WorkspaceDirectoryUnavailable,
            Error::CannotRemoveCurrentWorkspace => ErrorKind::CannotRemoveCurrentWorkspace,
            Error::CannotRemoveWorkspaceWithSharedRepoStorage { .. } => ErrorKind::CannotRemoveWorkspaceWithSharedRepoStorage,
            Error::RemoveCancelled => ErrorKind::RemoveCancelled,
            Error::MergeSameWorkspace(_) => ErrorKind::MergeSameWorkspace,
            Error::MergeWorkspaceMissing { .. } => ErrorKind::MergeWorkspaceMissing,
            Error::MergeWorkspaceAmbiguous { .. } => ErrorKind::MergeWorkspaceAmbiguous,
            Error::MergeWorkspaceUnavailable { .. } => ErrorKind::MergeWorkspaceUnavailable,
            Error::MergeSourceEmpty { .. } => ErrorKind::MergeSourceEmpty,
            Error::MergeSourceMultipleRoots { .. } => ErrorKind::MergeSourceMultipleRoots,
            Error::MergeSourceMultipleHeads { .. } => ErrorKind::MergeSourceMultipleHeads,
            Error::MergeDuplicateRootUnknown { .. } => ErrorKind::MergeDuplicateRootUnknown,
            Error::MergeDuplicateHeadUnknown { .. } => ErrorKind::MergeDuplicateHeadUnknown,
            Error::MergeRebaseFailed { .. } => ErrorKind::MergeRebaseFailed,
            Error::WorkspaceDirectoryDeleteAfterForgetFailed { .. } => ErrorKind::WorkspaceDirectoryDeleteAfterForgetFailed,
            Error::InvalidRepoPointer(_) => ErrorKind::InvalidRepoPointer,
            Error::RepoPointerResolution { .. } => ErrorKind::RepoPointerResolution,
            Error::InvalidWorkspaceTemplate(_) => ErrorKind::InvalidWorkspaceTemplate,
            Error::InvalidRepoConfig { .. } => ErrorKind::InvalidRepoConfig,
            Error::InvalidRepoState { .. } => ErrorKind::InvalidRepoState,
            Error::NoPreviousWorkspace => ErrorKind::NoPreviousWorkspace,
            Error::PreviousWorkspaceNotFound(_) => ErrorKind::PreviousWorkspaceNotFound,
            Error::PrimaryWorkspaceUnavailable => ErrorKind::PrimaryWorkspaceUnavailable,
            Error::ReservedSwitchTarget(_) => ErrorKind::ReservedSwitchTarget,
            Error::InvalidWorkspaceMetadata { .. } => ErrorKind::InvalidWorkspaceMetadata,
            Error::InvalidJjWorkspaceListEntry(_) => ErrorKind::InvalidJjWorkspaceListEntry,
            Error::UnsupportedShell(_) => ErrorKind::UnsupportedShell,
            Error::ShellRequired => ErrorKind::ShellRequired,
            Error::ShellDetection => ErrorKind::ShellDetection,
            Error::HomeDirectory => ErrorKind::HomeDirectory,
            Error::InvalidShellRcFile { .. } => ErrorKind::InvalidShellRcFile,
            Error::ShellDirectivePathNotUtf8 => ErrorKind::ShellDirectivePathNotUtf8,
            Error::JjCommandFailed { .. } => ErrorKind::JjCommandFailed,
            Error::UnsupportedJjVersion { .. } => ErrorKind::UnsupportedJjVersion,
            Error::JsonSerialization(_) => ErrorKind::JsonSerialization,
            Error::Engine { .. } => ErrorKind::Engine,
            Error::InvalidLanePath(_) => ErrorKind::InvalidLanePath,
            Error::InvalidLaneRegistry { .. } => ErrorKind::InvalidLaneRegistry,
            Error::LaneExists(_) => ErrorKind::LaneExists,
            Error::LaneNotFound(_) => ErrorKind::LaneNotFound,
            Error::LaneNotOpen { .. } => ErrorKind::LaneNotOpen,
            Error::LaneNameReserved(_) => ErrorKind::LaneNameReserved,
            Error::LaneOverlap { .. } => ErrorKind::LaneOverlap,
            Error::LaneReleaseWouldEmpty(_) => ErrorKind::LaneReleaseWouldEmpty,
            Error::LaneTrunkMissing(_) => ErrorKind::LaneTrunkMissing,
            Error::LaneTargetBookmarkMissing(_) => ErrorKind::LaneTargetBookmarkMissing,
            Error::LaneTargetHygiene { .. } => ErrorKind::LaneTargetHygiene,
            Error::LaneTrunkNotReady { .. } => ErrorKind::LaneTrunkNotReady,
            Error::LaneTrunkDirtyInScope { .. } => ErrorKind::LaneTrunkDirtyInScope,
            Error::LaneWorkspaceMissing(_) => ErrorKind::LaneWorkspaceMissing,
            Error::LaneNotSynced { .. } => ErrorKind::LaneNotSynced,
            Error::LaneConflicted { .. } => ErrorKind::LaneConflicted,
            Error::LaneNothingToLand(_) => ErrorKind::LaneNothingToLand,
            Error::LaneNeedsMessage(_) => ErrorKind::LaneNeedsMessage,
            Error::LaneUnscopedChanges { .. } => ErrorKind::LaneUnscopedChanges,
            Error::LaneGateFailed { .. } => ErrorKind::LaneGateFailed,
            Error::LaneNotLanded { .. } => ErrorKind::LaneNotLanded,
            Error::MutationLockTimeout { .. } => ErrorKind::MutationLockTimeout,
            Error::LaneTrunkMoved { .. } => ErrorKind::LaneTrunkMoved,
            Error::LaneCloseFromInside(_) => ErrorKind::LaneCloseFromInside,
            Error::WorkspaceExistsWithRevision { .. } => ErrorKind::WorkspaceExistsWithRevision,
            Error::Io(_) => ErrorKind::Io,
        }
    }

    /// The stable machine-readable code of this error.
    pub fn code(&self) -> (res: &'static str)
        ensures
            res@ == self@.code(),
    {
        match self.kind() {
            ErrorKind::NotInWorkspace => "not-in-workspace",
            ErrorKind::InvalidWorkspaceName => "invalid-workspace-name",
            ErrorKind::OrphanedWorkspace => "orphaned-workspace",
            ErrorKind::RepoName => "repo-name",
            ErrorKind::WorkspaceRootHasNoParent => "workspace-root-has-no-parent",
            ErrorKind::WorkspaceDoesNotExist => "workspace-does-not-exist",
            ErrorKind::WorkspaceNotFound => "workspace-not-found",
            ErrorKind::WorkspaceDirectoryUnavailable => "workspace-directory-unavailable",
            ErrorKind::CannotRemoveCurrentWorkspace => "cannot-remove-current-workspace",
            ErrorKind::CannotRemoveWorkspaceWithSharedRepoStorage => "cannot-remove-workspace-with-shared-repo-storage",
            ErrorKind::RemoveCancelled => "remove-cancelled",
            ErrorKind::MergeSameWorkspace => "merge-same-workspace",
            ErrorKind::MergeWorkspaceMissing => "merge-workspace-missing",
            ErrorKind::MergeWorkspaceAmbiguous => "merge-workspace-ambiguous",
            ErrorKind::MergeWorkspaceUnavailable => "merge-workspace-unavailable",
            ErrorKind::MergeSourceEmpty => "merge-source-empty",
            ErrorKind::MergeSourceMultipleRoots => "merge-source-multiple-roots",
            ErrorKind::MergeSourceMultipleHeads => "merge-source-multiple-heads",
            ErrorKind::MergeDuplicateRootUnknown => "merge-duplicate-root-unknown",
            ErrorKind::MergeDuplicateHeadUnknown => "merge-duplicate-head-unknown",
            ErrorKind::MergeRebaseFailed => "merge-rebase-failed",
            ErrorKind::WorkspaceDirectoryDeleteAfterForgetFailed => "workspace-directory-delete-after-forget-failed",
            ErrorKind::InvalidRepoPointer => "invalid-repo-pointer",
            ErrorKind::RepoPointerResolution => "repo-pointer-resolution",
            ErrorKind::InvalidWorkspaceTemplate => "invalid-workspace-template",
            ErrorKind::InvalidRepoConfig => "invalid-repo-config",
            ErrorKind::InvalidRepoState => "invalid-repo-state",
            ErrorKind::NoPreviousWorkspace => "no-previous-workspace",
            ErrorKind::PreviousWorkspaceNotFound => "previous-workspace-not-found",
            ErrorKind::PrimaryWorkspaceUnavailable => "primary-workspace-unavailable",
            ErrorKind::ReservedSwitchTarget => "reserved-switch-target",
            ErrorKind::InvalidWorkspaceMetadata => "invalid-workspace-metadata",
            ErrorKind::InvalidJjWorkspaceListEntry => "invalid-jj-workspace-list-entry",
            ErrorKind::UnsupportedShell => "unsupported-shell",
            ErrorKind::ShellRequired => "shell-required",
            ErrorKind::ShellDetection => "shell-detection",
            ErrorKind::HomeDirectory => "home-directory",
            ErrorKind::InvalidShellRcFile => "invalid-shell-rc-file",
            ErrorKind::ShellDirectivePathNotUtf8 => "shell-directive-path-not-utf8",
            ErrorKind::JjCommandFailed => "jj-command-failed",
            ErrorKind::UnsupportedJjVersion => "unsupported-jj-version",
            ErrorKind::JsonSerialization => "json-serialization",
            ErrorKind::Engine => "engine",
            ErrorKind::InvalidLanePath => "invalid-lane-path",
            ErrorKind::InvalidLaneRegistry => "invalid-lane-registry",
            ErrorKind::LaneExists => "lane-exists",
            ErrorKind::LaneNotFound => "lane-not-found",
            ErrorKind::LaneNotOpen => "lane-not-open",
            ErrorKind::LaneNameReserved => "lane-name-reserved",
            ErrorKind::LaneOverlap => "lane-overlap",
            ErrorKind::LaneReleaseWouldEmpty => "lane-release-would-empty",
            ErrorKind::LaneTrunkMissing => "lane-trunk-missing",
            ErrorKind::LaneTargetBookmarkMissing => "target-bookmark-missing",
            ErrorKind::LaneTargetHygiene => "target-hygiene",
            ErrorKind::LaneTrunkNotReady => "lane-trunk-not-ready",
            ErrorKind::LaneTrunkDirtyInScope => "lane-trunk-dirty-in-scope",
            ErrorKind::LaneWorkspaceMissing => "lane-workspace-missing",
            ErrorKind::LaneNotSynced => "lane-not-synced",
            ErrorKind::LaneConflicted => "lane-conflicted",
            ErrorKind::LaneNothingToLand => "lane-nothing-to-land",
            ErrorKind::LaneNeedsMessage => "lane-needs-message",
            ErrorKind::LaneUnscopedChanges => "lane-unscoped-changes",
            ErrorKind::LaneGateFailed => "gate-failed",
            ErrorKind::LaneNotLanded => "lane-not-landed",
            ErrorKind::MutationLockTimeout => "mutation-lock-timeout",
            ErrorKind::LaneTrunkMoved => "trunk-moved",
            ErrorKind::LaneCloseFromInside => "lane-close-from-inside",
            ErrorKind::WorkspaceExistsWithRevision => "workspace-exists-with-revision",
            ErrorKind::Io => "io",
        }
    }
}

/// The report of `error` with its code put in, as shown to the user.
pub fn render_domain_error(error: &Error) -> (res: String)
    ensures
        res@ == error@.rendered(),
{
    let message = error.message();
    if has_prefix(message.as_str(), "error:") {
        let rest = text::skip_chars(message.as_str(), text::char_count("error:"));
        let mut out = cat3("error[", error.code(), "]:");
        out.append(rest.as_str());
        out
    } else {
        let mut out = cat3("error[", error.code(), "]: ");
        out.append(message.as_str());
        out
    }
}

/// A report with its code says what the report says: the code stands behind the
/// leading word and the rest follows unchanged, and a message without that word
/// gets it.
pub proof fn law_rendered_report_is_the_message(e: ErrorView, rest: Seq<char>)
    ensures
        e.message() == "error:"@ + rest ==> e.rendered() == "error["@ + kind_code(e.kind) + "]:"@
            + rest,
        !text::starts_with(e.message(), "error:"@) ==> e.rendered() == "error["@ + kind_code(e.kind)
            + "]: "@ + e.message(),
{
    let head = "error:"@;
    if e.message() == head + rest {
        assert((head + rest).take(head.len() as int) =~= head);
        assert((head + rest).skip(head.len() as int) =~= rest);
    }
}

} // verus!
