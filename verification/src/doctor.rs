//! Diagnosis of a repo, its workspaces and its history.
//!
//! What `jj`, the file system and the registries answered goes in; findings
//! come out. A question that could not be answered becomes a finding too,
//! instead of aborting the report.

use vstd::prelude::*;

use crate::engine::OpChurn;
use crate::error::{Error, ErrorKind, Result};
use crate::jj::{self, JjRequest};
use crate::lane_store::LaneRecord;
use crate::order::{self, sort_falling};
use crate::revset::{self, quote_revset_string};
use crate::text::{self, cat2, cat3, cat4, cat5, copy, joined, same, size_number};
use crate::types::{
    LaneRev, RepoConfig, WorkspaceMetadataStatus, WorkspaceName, WorkspacePathSource,
    WorkspacePathState, WorkspaceSnapshot,
};

verus! {

/// How serious a finding is.
#[derive(Clone, Copy, Debug, PartialEq, Eq, Structural)]
pub enum DoctorSeverity {
    /// Something is broken.
    Error,
    /// Something needs attention.
    Warning,
    /// Something worth knowing.
    Info,
}

impl DoctorSeverity {
    /// Name in machine output.
    pub open spec fn label_text(self) -> Seq<char> {
        match self {
            DoctorSeverity::Error => "error"@,
            DoctorSeverity::Warning => "warning"@,
            DoctorSeverity::Info => "info"@,
        }
    }

    /// How far to the front a finding comes.
    pub open spec fn weight(self) -> int {
        match self {
            DoctorSeverity::Error => 2,
            DoctorSeverity::Warning => 1,
            DoctorSeverity::Info => 0,
        }
    }

    /// Name in machine output.
    pub fn label(self) -> (res: &'static str)
        ensures
            res@ == self.label_text(),
    {
        match self {
            DoctorSeverity::Error => "error",
            DoctorSeverity::Warning => "warning",
            DoctorSeverity::Info => "info",
        }
    }
}

/// What a finding is about.
#[derive(Clone, Copy, Debug, PartialEq, Eq, Structural)]
pub enum DoctorFindingCode {
    OrphanedWorkspace,
    InvalidRepoConfig,
    InvalidWorkspaceMetadata,
    WorkspacePathInferred,
    WorkspaceDirectoryMissing,
    WorkspaceDirectoryStale,
    JjOnlyWorkspace,
    MetadataOnlyWorkspace,
    DivergentChanges,
    OpChurn,
    TargetHygiene,
    ConflictedCommits,
    OrphanHeads,
    MergedThenAmended,
}

impl DoctorFindingCode {
    /// Name in machine output.
    pub open spec fn label_text(self) -> Seq<char> {
        match self {
            DoctorFindingCode::OrphanedWorkspace => "orphaned_workspace"@,
            DoctorFindingCode::InvalidRepoConfig => "invalid_repo_config"@,
            DoctorFindingCode::InvalidWorkspaceMetadata => "invalid_workspace_metadata"@,
            DoctorFindingCode::WorkspacePathInferred => "workspace_path_inferred"@,
            DoctorFindingCode::WorkspaceDirectoryMissing => "workspace_directory_missing"@,
            DoctorFindingCode::WorkspaceDirectoryStale => "workspace_directory_stale"@,
            DoctorFindingCode::JjOnlyWorkspace => "jj_only_workspace"@,
            DoctorFindingCode::MetadataOnlyWorkspace => "metadata_only_workspace"@,
            DoctorFindingCode::DivergentChanges => "divergent_changes"@,
            DoctorFindingCode::OpChurn => "op_churn"@,
            DoctorFindingCode::TargetHygiene => "target_hygiene"@,
            DoctorFindingCode::ConflictedCommits => "conflicted_commits"@,
            DoctorFindingCode::OrphanHeads => "orphan_heads"@,
            DoctorFindingCode::MergedThenAmended => "merged_then_amended"@,
        }
    }

    /// Name in machine output.
    pub fn label(self) -> (res: &'static str)
        ensures
            res@ == self.label_text(),
    {
        match self {
            DoctorFindingCode::OrphanedWorkspace => "orphaned_workspace",
            DoctorFindingCode::InvalidRepoConfig => "invalid_repo_config",
            DoctorFindingCode::InvalidWorkspaceMetadata => "invalid_workspace_metadata",
            DoctorFindingCode::WorkspacePathInferred => "workspace_path_inferred",
            DoctorFindingCode::WorkspaceDirectoryMissing => "workspace_directory_missing",
            DoctorFindingCode::WorkspaceDirectoryStale => "workspace_directory_stale",
            DoctorFindingCode::JjOnlyWorkspace => "jj_only_workspace",
            DoctorFindingCode::MetadataOnlyWorkspace => "metadata_only_workspace",
            DoctorFindingCode::DivergentChanges => "divergent_changes",
            DoctorFindingCode::OpChurn => "op_churn",
            DoctorFindingCode::TargetHygiene => "target_hygiene",
            DoctorFindingCode::ConflictedCommits => "conflicted_commits",
            DoctorFindingCode::OrphanHeads => "orphan_heads",
            DoctorFindingCode::MergedThenAmended => "merged_then_amended",
        }
    }
}

/// Whom a finding concerns.
#[derive(Debug, PartialEq, Eq)]
pub enum DoctorScope {
    Repo,
    Workspace { workspace: String },
}

/// One thing that the diagnosis found.
#[derive(Debug, PartialEq, Eq)]
pub struct DoctorFinding {
    pub severity: DoctorSeverity,
    pub code: DoctorFindingCode,
    pub scope: DoctorScope,
    pub message: String,
    pub path: Option<String>,
    pub hint: Option<String>,
}

/// All that the diagnosis found.
#[derive(Debug, PartialEq, Eq)]
pub struct DoctorReport {
    pub findings: Vec<DoctorFinding>,
}

/// A finding as mathematical values; `workspace` is none for the whole repo.
pub struct FindingView {
    pub severity: DoctorSeverity,
    pub code: DoctorFindingCode,
    pub workspace: Option<Seq<char>>,
    pub message: Seq<char>,
    pub path: Option<Seq<char>>,
    pub hint: Option<Seq<char>>,
}

impl View for DoctorFinding {
    type V = FindingView;

    open spec fn view(&self) -> FindingView {
        FindingView {
            severity: self.severity,
            code: self.code,
            workspace: match self.scope {
                DoctorScope::Repo => None,
                DoctorScope::Workspace { workspace } => Some(workspace@),
            },
            message: self.message@,
            path: text::opt_view(self.path),
            hint: text::opt_view(self.hint),
        }
    }
}

/// The views of a list of findings.
pub open spec fn finding_views(findings: Seq<DoctorFinding>) -> Seq<FindingView> {
    findings.map_values(|f: DoctorFinding| f@)
}

broadcast proof fn lemma_findings_push(findings: Seq<DoctorFinding>, f: DoctorFinding)
    ensures
        #[trigger] finding_views(findings.push(f)) == finding_views(findings).push(f@),
{
    assert(finding_views(findings.push(f)) =~= finding_views(findings).push(f@));
}

proof fn lemma_findings_empty(findings: Seq<DoctorFinding>)
    requires
        findings.len() == 0,
    ensures
        finding_views(findings) == Seq::<FindingView>::empty(),
{
    assert(finding_views(findings) =~= Seq::<FindingView>::empty());
}

/// A finding on the repo.
pub open spec fn on_repo(
    severity: DoctorSeverity,
    code: DoctorFindingCode,
    message: Seq<char>,
    hint: Option<Seq<char>>,
) -> FindingView {
    FindingView { severity, code, workspace: None, message, path: None, hint }
}

/// A finding on a workspace.
pub open spec fn on_workspace(
    severity: DoctorSeverity,
    code: DoctorFindingCode,
    workspace: Seq<char>,
    message: Seq<char>,
    hint: Option<Seq<char>>,
    path: Option<Seq<char>>,
) -> FindingView {
    FindingView { severity, code, workspace: Some(workspace), message, path, hint }
}

/// A finding on the repo.
pub fn deep_finding(
    severity: DoctorSeverity,
    code: DoctorFindingCode,
    message: String,
    hint: Option<String>,
) -> (res: DoctorFinding)
    ensures
        res@ == on_repo(severity, code, message@, text::opt_view(hint)),
{
    DoctorFinding { severity, code, scope: DoctorScope::Repo, message, path: None, hint }
}

/// A finding on a workspace.
pub fn workspace_finding(
    severity: DoctorSeverity,
    code: DoctorFindingCode,
    workspace: &WorkspaceName,
    message: String,
    hint: Option<String>,
    path: Option<String>,
) -> (res: DoctorFinding)
    ensures
        res@ == on_workspace(
            severity,
            code,
            workspace@,
            message@,
            text::opt_view(hint),
            text::opt_view(path),
        ),
{
    DoctorFinding {
        severity,
        code,
        scope: DoctorScope::Workspace { workspace: copy(workspace.as_str()) },
        message,
        path,
        hint,
    }
}

/// A finding on a workspace whose path had to be guessed.
pub fn inferred_path_finding(
    workspace: &WorkspaceName,
    message: String,
    hint: String,
    display_path: String,
) -> (res: DoctorFinding)
    ensures
        res@ == on_workspace(
            DoctorSeverity::Info,
            DoctorFindingCode::WorkspacePathInferred,
            workspace@,
            message@,
            Some(hint@),
            Some(display_path@),
        ),
{
    workspace_finding(
        DoctorSeverity::Info,
        DoctorFindingCode::WorkspacePathInferred,
        workspace,
        message,
        Some(hint),
        Some(display_path),
    )
}

fn append_findings(list: &mut Vec<DoctorFinding>, more: Vec<DoctorFinding>)
    ensures
        finding_views(final(list)@) == finding_views(old(list)@) + finding_views(more@),
{
    let ghost before = list@;
    let ghost added = more@;
    let mut more = more;
    list.append(&mut more);
    assert(finding_views(list@) =~= finding_views(before) + finding_views(added));
}

// ---------------------------------------------------------------------------
// The ground the report stands on

/// The finding on a directory that is no longer a workspace.
pub open spec fn orphaned_finding(workspace_root: Seq<char>) -> FindingView {
    FindingView {
        severity: DoctorSeverity::Error,
        code: DoctorFindingCode::OrphanedWorkspace,
        workspace: None,
        message: "current directory is no longer a registered jj workspace"@,
        path: Some(workspace_root),
        hint: Some("cd into another workspace or recreate this workspace with jj"@),
    }
}

/// What is known of the current workspace: an orphaned one is a finding, any
/// other failure ends the diagnosis.
pub fn current_workspace(answer: Result<WorkspaceName>, workspace_root: &str) -> (res: Result<
    (Option<WorkspaceName>, Vec<DoctorFinding>),
>)
    ensures
        match answer {
            Ok(name) => res matches Ok((current, findings)) && current == Some(name)
                && findings@.len() == 0,
            Err(e) => if e@.kind == ErrorKind::OrphanedWorkspace {
                res matches Ok((current, findings)) && current is None && finding_views(findings@)
                    == seq![orphaned_finding(workspace_root@)]
            } else {
                res == Err::<(Option<WorkspaceName>, Vec<DoctorFinding>), Error>(e)
            },
        },
{
    match answer {
        Ok(name) => Ok((Some(name), Vec::new())),
        Err(Error::OrphanedWorkspace) => {
            let finding = DoctorFinding {
                severity: DoctorSeverity::Error,
                code: DoctorFindingCode::OrphanedWorkspace,
                scope: DoctorScope::Repo,
                message: copy("current directory is no longer a registered jj workspace"),
                path: Some(copy(workspace_root)),
                hint: Some(copy("cd into another workspace or recreate this workspace with jj")),
            };
            let findings: Vec<DoctorFinding> = vec![finding];
            assert(finding_views(findings@) =~= seq![orphaned_finding(workspace_root@)]);
            Ok((None, findings))
        },
        Err(e) => Err(e),
    }
}

/// The finding on a file that cannot be read as what it should be.
pub open spec fn invalid_file_finding(
    code: DoctorFindingCode,
    what: Seq<char>,
    path: Seq<char>,
    message: Seq<char>,
) -> FindingView {
    FindingView {
        severity: DoctorSeverity::Error,
        code,
        workspace: None,
        message: "invalid "@ + what + " in "@ + path,
        path: Some(path),
        hint: Some(message),
    }
}

fn invalid_file(code: DoctorFindingCode, what: &str, path: String, message: String) -> (res: Vec<
    DoctorFinding,
>)
    ensures
        finding_views(res@) == seq![invalid_file_finding(code, what@, path@, message@)],
{
    let finding = DoctorFinding {
        severity: DoctorSeverity::Error,
        code,
        scope: DoctorScope::Repo,
        message: cat4("invalid ", what, " in ", path.as_str()),
        path: Some(path),
        hint: Some(message),
    };
    let findings: Vec<DoctorFinding> = vec![finding];
    assert(finding_views(findings@) =~= seq![invalid_file_finding(code, what@, path@, message@)]);
    findings
}

/// The config in effect: an invalid file is a finding and leaves the defaults,
/// any other failure ends the diagnosis. The flag says that the file was
/// valid.
pub fn effective_config(answer: Result<RepoConfig>) -> (res: Result<
    (RepoConfig, bool, Vec<DoctorFinding>),
>)
    ensures
        match answer {
            Ok(config) => res matches Ok((c, valid, findings)) && c == config && valid
                && findings@.len() == 0,
            Err(Error::InvalidRepoConfig { path, message }) => {
                &&& res matches Ok((c, valid, findings))
                &&& c.lane.is_default()
                &&& c.workspace_template@ == crate::types::default_template()
                &&& c.resolve@.len() == 0
                &&& !valid
                &&& finding_views(findings@) == seq![
                    invalid_file_finding(
                        DoctorFindingCode::InvalidRepoConfig,
                        "repo config"@,
                        path@,
                        message@,
                    ),
                ]
            },
            Err(e) => res == Err::<(RepoConfig, bool, Vec<DoctorFinding>), Error>(e),
        },
{
    match answer {
        Ok(config) => Ok((config, true, Vec::new())),
        Err(Error::InvalidRepoConfig { path, message }) => {
            let findings = invalid_file(
                DoctorFindingCode::InvalidRepoConfig,
                "repo config",
                path,
                message,
            );
            Ok((RepoConfig::default(), false, findings))
        },
        Err(e) => Err(e),
    }
}

/// A workspace that navi's metadata knows.
#[derive(Debug, PartialEq, Eq)]
pub struct MetadataEntry {
    pub name: WorkspaceName,
    /// Its path as shown to users, where one is recorded.
    pub display_path: Option<String>,
}

/// The metadata in effect: an invalid file is a finding and leaves none, any
/// other failure ends the diagnosis. The flag says that the file was valid.
pub fn effective_metadata(answer: Result<Vec<MetadataEntry>>) -> (res: Result<
    (Vec<MetadataEntry>, bool, Vec<DoctorFinding>),
>)
    ensures
        match answer {
            Ok(entries) => res matches Ok((m, valid, findings)) && m == entries && valid
                && findings@.len() == 0,
            Err(Error::InvalidWorkspaceMetadata { path, message }) => {
                &&& res matches Ok((m, valid, findings))
                &&& m@.len() == 0
                &&& !valid
                &&& finding_views(findings@) == seq![
                    invalid_file_finding(
                        DoctorFindingCode::InvalidWorkspaceMetadata,
                        "workspace metadata"@,
                        path@,
                        message@,
                    ),
                ]
            },
            Err(e) => res == Err::<(Vec<MetadataEntry>, bool, Vec<DoctorFinding>), Error>(e),
        },
{
    match answer {
        Ok(entries) => Ok((entries, true, Vec::new())),
        Err(Error::InvalidWorkspaceMetadata { path, message }) => {
            let findings = invalid_file(
                DoctorFindingCode::InvalidWorkspaceMetadata,
                "workspace metadata",
                path,
                message,
            );
            Ok((Vec::new(), false, findings))
        },
        Err(e) => Err(e),
    }
}

// ---------------------------------------------------------------------------
// Workspaces

/// A workspace as the diagnosis sees it.
#[derive(Debug, PartialEq, Eq)]
pub struct DoctorSnapshot {
    pub snapshot: WorkspaceSnapshot,
    /// Its path as shown to users.
    pub display_path: String,
    /// A workspace of this name should have navi metadata.
    pub expects_metadata: bool,
}

/// The finding on the path of a workspace, if there is one. An inferred path
/// comes from the metadata or the template; with any other source the workspace
/// is passed over.
pub open spec fn path_findings(s: DoctorSnapshot) -> Seq<FindingView> {
    let name = s.snapshot.name@;
    let shown = s.display_path@;
    match s.snapshot.path.state {
        WorkspacePathState::Confirmed => Seq::empty(),
        WorkspacePathState::Inferred => match s.snapshot.path.source {
            WorkspacePathSource::NaviMetadata => seq![
                on_workspace(
                    DoctorSeverity::Info,
                    DoctorFindingCode::WorkspacePathInferred,
                    name,
                    "workspace '"@ + name + "' is using a validated metadata fallback path"@,
                    Some("resolved from navi metadata: "@ + shown),
                    Some(shown),
                ),
            ],
            WorkspacePathSource::Template => seq![
                on_workspace(
                    DoctorSeverity::Info,
                    DoctorFindingCode::WorkspacePathInferred,
                    name,
                    "workspace '"@ + name + "' is using a validated template path"@,
                    Some("resolved from workspace template: "@ + shown),
                    Some(shown),
                ),
            ],
            _ => Seq::empty(),
        },
        WorkspacePathState::Missing => seq![
            on_workspace(
                DoctorSeverity::Warning,
                DoctorFindingCode::WorkspaceDirectoryMissing,
                name,
                "workspace '"@ + name + "' directory is missing"@,
                Some("last known path: "@ + shown),
                Some(shown),
            ),
        ],
        WorkspacePathState::Stale => seq![
            on_workspace(
                DoctorSeverity::Warning,
                DoctorFindingCode::WorkspaceDirectoryStale,
                name,
                "workspace '"@ + name + "' directory is stale"@,
                Some("best known path no longer validates: "@ + shown),
                Some(shown),
            ),
        ],
    }
}

/// A path that is inferred, though its source is not one that paths are
/// inferred from.
pub open spec fn passed_over(s: DoctorSnapshot) -> bool {
    s.snapshot.path.state == WorkspacePathState::Inferred && s.snapshot.path.source
        != WorkspacePathSource::NaviMetadata && s.snapshot.path.source
        != WorkspacePathSource::Template
}

/// The findings on one workspace.
pub open spec fn snapshot_findings(s: DoctorSnapshot, metadata_is_valid: bool) -> Seq<FindingView> {
    if metadata_is_valid && !passed_over(s) && s.snapshot.health.metadata_status
        == WorkspaceMetadataStatus::MissingRecord && s.expects_metadata {
        path_findings(s).push(
            on_workspace(
                DoctorSeverity::Info,
                DoctorFindingCode::JjOnlyWorkspace,
                s.snapshot.name@,
                "workspace '"@ + s.snapshot.name@ + "' exists in jj but has no navi metadata"@,
                None,
                Some(s.display_path@),
            ),
        )
    } else {
        path_findings(s)
    }
}

/// The findings on some workspaces.
pub open spec fn all_snapshot_findings(
    snapshots: Seq<DoctorSnapshot>,
    metadata_is_valid: bool,
) -> Seq<FindingView>
    decreases snapshots.len(),
{
    if snapshots.len() == 0 {
        Seq::empty()
    } else {
        all_snapshot_findings(snapshots.drop_last(), metadata_is_valid) + snapshot_findings(
            snapshots.last(),
            metadata_is_valid,
        )
    }
}

/// `jj` lists a workspace of this name.
pub open spec fn is_listed(snapshots: Seq<DoctorSnapshot>, name: Seq<char>) -> bool {
    exists|i: int| 0 <= i < snapshots.len() && (#[trigger] snapshots[i]).snapshot.name@ == name
}

/// The finding on metadata without a workspace.
pub open spec fn metadata_only(entry: MetadataEntry) -> FindingView {
    on_workspace(
        DoctorSeverity::Warning,
        DoctorFindingCode::MetadataOnlyWorkspace,
        entry.name@,
        "metadata exists for workspace '"@ + entry.name@ + "' but jj no longer lists it"@,
        Some("safe prune candidate"@),
        text::opt_view(entry.display_path),
    )
}

/// The findings on metadata without a workspace.
pub open spec fn all_metadata_only(
    snapshots: Seq<DoctorSnapshot>,
    entries: Seq<MetadataEntry>,
) -> Seq<FindingView>
    decreases entries.len(),
{
    if entries.len() == 0 {
        Seq::empty()
    } else if is_listed(snapshots, entries.last().name@) {
        all_metadata_only(snapshots, entries.drop_last())
    } else {
        all_metadata_only(snapshots, entries.drop_last()).push(metadata_only(entries.last()))
    }
}

/// The findings on workspaces and their metadata.
pub open spec fn workspace_findings(
    snapshots: Seq<DoctorSnapshot>,
    entries: Seq<MetadataEntry>,
    metadata_is_valid: bool,
) -> Seq<FindingView> {
    if metadata_is_valid {
        all_snapshot_findings(snapshots, metadata_is_valid) + all_metadata_only(snapshots, entries)
    } else {
        all_snapshot_findings(snapshots, metadata_is_valid)
    }
}

/// The finding on metadata without a workspace.
pub fn metadata_only_finding(entry: &MetadataEntry) -> (res: DoctorFinding)
    ensures
        res@ == metadata_only(*entry),
{
    workspace_finding(
        DoctorSeverity::Warning,
        DoctorFindingCode::MetadataOnlyWorkspace,
        &entry.name,
        cat3(
            "metadata exists for workspace '",
            entry.name.as_str(),
            "' but jj no longer lists it",
        ),
        Some(copy("safe prune candidate")),
        text::copy_opt(&entry.display_path),
    )
}

/// The findings on metadata without a workspace.
pub fn collect_metadata_only_findings(
    snapshots: &Vec<DoctorSnapshot>,
    entries: &Vec<MetadataEntry>,
) -> (res: Vec<DoctorFinding>)
    ensures
        finding_views(res@) == all_metadata_only(snapshots@, entries@),
{
    broadcast use lemma_findings_push;

    let mut out: Vec<DoctorFinding> = Vec::new();
    let mut i: usize = 0;
    proof {
        lemma_findings_empty(out@);
        assert(entries@.take(0) =~= Seq::<MetadataEntry>::empty());
    }
    while i < entries.len()
        invariant
            i <= entries@.len(),
            finding_views(out@) == all_metadata_only(snapshots@, entries@.take(i as int)),
        decreases entries@.len() - i,
    {
        let entry = &entries[i];
        assert(entries@.take(i + 1).drop_last() =~= entries@.take(i as int));
        let mut listed = false;
        let mut k: usize = 0;
        while k < snapshots.len() && !listed
            invariant
                k <= snapshots@.len(),
                listed ==> is_listed(snapshots@, entry.name@),
                !listed ==> forall|j: int|
                    0 <= j < k ==> (#[trigger] snapshots@[j]).snapshot.name@ != entry.name@,
            decreases snapshots@.len() - k,
        {
            if same(snapshots[k].snapshot.name.as_str(), entry.name.as_str()) {
                assert(snapshots@[k as int].snapshot.name@ == entry.name@);
                listed = true;
            }
            k = k + 1;
        }
        if !listed {
            out.push(metadata_only_finding(entry));
        }
        i = i + 1;
    }
    assert(entries@.take(i as int) =~= entries@);
    out
}

fn findings_on(s: &DoctorSnapshot, metadata_is_valid: bool) -> (res: Vec<DoctorFinding>)
    ensures
        finding_views(res@) == snapshot_findings(*s, metadata_is_valid),
{
    broadcast use lemma_findings_push;

    let name = s.snapshot.name.as_str();
    let shown = s.display_path.as_str();
    let mut out: Vec<DoctorFinding> = Vec::new();
    proof {
        lemma_findings_empty(out@);
    }
    match s.snapshot.path.state {
        WorkspacePathState::Confirmed => {},
        WorkspacePathState::Inferred => match s.snapshot.path.source {
            WorkspacePathSource::NaviMetadata => {
                out.push(
                    inferred_path_finding(
                        &s.snapshot.name,
                        cat3("workspace '", name, "' is using a validated metadata fallback path"),
                        cat2("resolved from navi metadata: ", shown),
                        copy(shown),
                    ),
                );
            },
            WorkspacePathSource::Template => {
                out.push(
                    inferred_path_finding(
                        &s.snapshot.name,
                        cat3("workspace '", name, "' is using a validated template path"),
                        cat2("resolved from workspace template: ", shown),
                        copy(shown),
                    ),
                );
            },
            _ => {
                return out;
            },
        },
        WorkspacePathState::Missing => {
            out.push(
                workspace_finding(
                    DoctorSeverity::Warning,
                    DoctorFindingCode::WorkspaceDirectoryMissing,
                    &s.snapshot.name,
                    cat3("workspace '", name, "' directory is missing"),
                    Some(cat2("last known path: ", shown)),
                    Some(copy(shown)),
                ),
            );
        },
        WorkspacePathState::Stale => {
            out.push(
                workspace_finding(
                    DoctorSeverity::Warning,
                    DoctorFindingCode::WorkspaceDirectoryStale,
                    &s.snapshot.name,
                    cat3("workspace '", name, "' directory is stale"),
                    Some(cat2("best known path no longer validates: ", shown)),
                    Some(copy(shown)),
                ),
            );
        },
    }
    assert(finding_views(out@) =~= path_findings(*s));
    if metadata_is_valid && s.snapshot.health.metadata_status
        == WorkspaceMetadataStatus::MissingRecord && s.expects_metadata {
        out.push(
            workspace_finding(
                DoctorSeverity::Info,
                DoctorFindingCode::JjOnlyWorkspace,
                &s.snapshot.name,
                cat3("workspace '", name, "' exists in jj but has no navi metadata"),
                None,
                Some(copy(shown)),
            ),
        );
    }
    out
}

/// The findings on workspaces and their metadata.
pub fn collect_workspace_findings(
    snapshots: &Vec<DoctorSnapshot>,
    entries: &Vec<MetadataEntry>,
    metadata_is_valid: bool,
) -> (res: Vec<DoctorFinding>)
    ensures
        finding_views(res@) == workspace_findings(snapshots@, entries@, metadata_is_valid),
{
    let mut out: Vec<DoctorFinding> = Vec::new();
    let mut i: usize = 0;
    proof {
        lemma_findings_empty(out@);
        assert(snapshots@.take(0) =~= Seq::<DoctorSnapshot>::empty());
    }
    while i < snapshots.len()
        invariant
            i <= snapshots@.len(),
            finding_views(out@) == all_snapshot_findings(
                snapshots@.take(i as int),
                metadata_is_valid,
            ),
        decreases snapshots@.len() - i,
    {
        assert(snapshots@.take(i + 1).drop_last() =~= snapshots@.take(i as int));
        append_findings(&mut out, findings_on(&snapshots[i], metadata_is_valid));
        i = i + 1;
    }
    assert(snapshots@.take(i as int) =~= snapshots@);
    if metadata_is_valid {
        append_findings(&mut out, collect_metadata_only_findings(snapshots, entries));
    }
    out
}

// ---------------------------------------------------------------------------
// History

/// An answer, or what went wrong in getting it.
pub type Answer<T> = std::result::Result<T, String>;

/// What the engine says of divergence and of the operation log.
pub struct EngineAnswers {
    /// Number of divergent changes.
    pub divergent: Answer<usize>,
    /// Activity in the operation log.
    pub churn: Answer<OpChurn>,
}

/// The window in which operations count as recent, in seconds.
pub const CHURN_WINDOW_SECONDS: i64 = 86_400;

/// Operations after which the walk of the log stops.
pub const CHURN_CAP: usize = 5_000;

/// The finding on divergence.
pub open spec fn divergence_finding(answer: Answer<usize>) -> FindingView {
    match answer {
        Ok(count) => if count == 0 {
            on_repo(
                DoctorSeverity::Info,
                DoctorFindingCode::DivergentChanges,
                "no divergent changes"@,
                None,
            )
        } else {
            on_repo(
                DoctorSeverity::Warning,
                DoctorFindingCode::DivergentChanges,
                text::decimal(count as nat) + " divergent change(s)"@,
                Some("run: navi heal"@),
            )
        },
        Err(e) => on_repo(
            DoctorSeverity::Warning,
            DoctorFindingCode::DivergentChanges,
            "could not enumerate divergent changes: "@ + e@,
            None,
        ),
    }
}

/// The finding on the operation log.
pub open spec fn churn_finding(answer: Answer<OpChurn>) -> FindingView {
    match answer {
        Ok(churn) => on_repo(
            if churn.capped {
                DoctorSeverity::Warning
            } else {
                DoctorSeverity::Info
            },
            DoctorFindingCode::OpChurn,
            text::decimal(churn.recent as nat) + (if churn.capped {
                "+"@
            } else {
                ""@
            }) + " operation(s) in the last 24h"@,
            if churn.capped {
                Some(
                    "op log is very large and slows every navi/jj command; compact it: jj op abandon ..<old-op-id> then jj util gc"@,
                )
            } else {
                None
            },
        ),
        Err(e) => on_repo(
            DoctorSeverity::Warning,
            DoctorFindingCode::OpChurn,
            "could not walk the operation log: "@ + e@,
            None,
        ),
    }
}

/// The findings from the engine.
pub open spec fn engine_finding_views(answers: Answer<EngineAnswers>) -> Seq<FindingView> {
    match answers {
        Ok(a) => seq![divergence_finding(a.divergent), churn_finding(a.churn)],
        Err(e) => seq![
            on_repo(
                DoctorSeverity::Warning,
                DoctorFindingCode::DivergentChanges,
                "embedded engine unavailable: "@ + e@,
                None,
            ),
        ],
    }
}

fn on_divergence(answer: &Answer<usize>) -> (res: DoctorFinding)
    ensures
        res@ == divergence_finding(*answer),
{
    match answer {
        Ok(count) => {
            if *count == 0 {
                deep_finding(
                    DoctorSeverity::Info,
                    DoctorFindingCode::DivergentChanges,
                    copy("no divergent changes"),
                    None,
                )
            } else {
                deep_finding(
                    DoctorSeverity::Warning,
                    DoctorFindingCode::DivergentChanges,
                    cat2(size_number(*count).as_str(), " divergent change(s)"),
                    Some(copy("run: navi heal")),
                )
            }
        },
        Err(e) => deep_finding(
            DoctorSeverity::Warning,
            DoctorFindingCode::DivergentChanges,
            cat2("could not enumerate divergent changes: ", e.as_str()),
            None,
        ),
    }
}

fn on_churn(answer: &Answer<OpChurn>) -> (res: DoctorFinding)
    ensures
        res@ == churn_finding(*answer),
{
    match answer {
        Ok(churn) => {
            let recent = size_number(churn.recent);
            if churn.capped {
                deep_finding(
                    DoctorSeverity::Warning,
                    DoctorFindingCode::OpChurn,
                    cat3(recent.as_str(), "+", " operation(s) in the last 24h"),
                    Some(
                        copy(
                            "op log is very large and slows every navi/jj command; compact it: jj op abandon ..<old-op-id> then jj util gc",
                        ),
                    ),
                )
            } else {
                deep_finding(
                    DoctorSeverity::Info,
                    DoctorFindingCode::OpChurn,
                    cat3(recent.as_str(), "", " operation(s) in the last 24h"),
                    None,
                )
            }
        },
        Err(e) => deep_finding(
            DoctorSeverity::Warning,
            DoctorFindingCode::OpChurn,
            cat2("could not walk the operation log: ", e.as_str()),
            None,
        ),
    }
}

/// Divergence and op-churn findings from the engine.
pub fn engine_findings(answers: &Answer<EngineAnswers>) -> (res: Vec<DoctorFinding>)
    ensures
        finding_views(res@) == engine_finding_views(*answers),
{
    match answers {
        Ok(a) => {
            let out: Vec<DoctorFinding> = vec![on_divergence(&a.divergent), on_churn(&a.churn)];
            assert(finding_views(out@) =~= engine_finding_views(*answers));
            out
        },
        Err(e) => {
            let out: Vec<DoctorFinding> = vec![
                deep_finding(
                    DoctorSeverity::Warning,
                    DoctorFindingCode::DivergentChanges,
                    cat2("embedded engine unavailable: ", e.as_str()),
                    None,
                ),
            ];
            assert(finding_views(out@) =~= engine_finding_views(*answers));
            out
        },
    }
}

// ---------------------------------------------------------------------------
// The landing target

/// What blocks pushing a target, by what the finding calls it.
pub open spec fn blocker_name(k: int) -> Seq<char> {
    if k == 0 {
        "conflicted commit(s)"@
    } else if k == 1 {
        "divergent change(s)"@
    } else {
        "undescribed non-empty commit(s)"@
    }
}

/// The revset that selects the blockers of a kind below a bookmark.
pub open spec fn blocker_revset(bookmark: Seq<char>, k: int) -> Seq<char> {
    let symbol = revset::quoted(bookmark);
    if k == 0 {
        "conflicts() & ::"@ + symbol
    } else if k == 1 {
        "divergent() & ::"@ + symbol
    } else {
        "::"@ + symbol + " & description(exact:\"\") ~ empty() ~ root()"@
    }
}

/// Number of conflicts, of divergent changes and of undescribed commits.
pub struct TargetAnswers {
    pub conflicted: Answer<usize>,
    pub divergent: Answer<usize>,
    pub undescribed: Answer<usize>,
}

/// The requests whose revisions are the blockers below a bookmark.
pub fn target_hygiene_requests(bookmark: &str) -> (res: (JjRequest, JjRequest, JjRequest))
    ensures
        res.0@ == jj::revisions_args(blocker_revset(bookmark@, 0)),
        res.1@ == jj::revisions_args(blocker_revset(bookmark@, 1)),
        res.2@ == jj::revisions_args(blocker_revset(bookmark@, 2)),
{
    let symbol = quote_revset_string(bookmark);
    (
        JjRequest::revisions(cat2("conflicts() & ::", symbol.as_str()).as_str()),
        JjRequest::revisions(cat2("divergent() & ::", symbol.as_str()).as_str()),
        JjRequest::revisions(
            cat3("::", symbol.as_str(), " & description(exact:\"\") ~ empty() ~ root()").as_str(),
        ),
    )
}

/// The finding on one kind of blocker; none where there are no such blockers.
pub open spec fn blocker_findings(bookmark: Seq<char>, k: int, answer: Answer<usize>) -> Seq<
    FindingView,
> {
    match answer {
        Ok(count) => if count == 0 {
            Seq::empty()
        } else {
            seq![
                on_repo(
                    DoctorSeverity::Warning,
                    DoctorFindingCode::TargetHygiene,
                    text::decimal(count as nat) + " "@ + blocker_name(k) + " in ::"@ + bookmark,
                    Some(
                        "these block pushing the target; landing onto it is refused until clean"@,
                    ),
                ),
            ]
        },
        Err(e) => seq![
            on_repo(
                DoctorSeverity::Warning,
                DoctorFindingCode::TargetHygiene,
                "could not check "@ + blocker_name(k) + " for ::"@ + bookmark + ": "@ + e@,
                None,
            ),
        ],
    }
}

/// The finding that nothing blocks the target.
pub open spec fn clean_target(bookmark: Seq<char>) -> FindingView {
    on_repo(
        DoctorSeverity::Info,
        DoctorFindingCode::TargetHygiene,
        "target '"@ + bookmark + "' ancestry is clean and pushable"@,
        None,
    )
}

/// The findings on the landing target.
pub open spec fn target_findings(bookmark: Seq<char>, answers: TargetAnswers) -> Seq<FindingView> {
    let blockers = blocker_findings(bookmark, 0, answers.conflicted) + blocker_findings(
        bookmark,
        1,
        answers.divergent,
    ) + blocker_findings(bookmark, 2, answers.undescribed);
    if blockers.len() == 0 {
        seq![clean_target(bookmark)]
    } else {
        blockers
    }
}

fn on_blocker(bookmark: &str, what: &str, answer: &Answer<usize>, Ghost(k): Ghost<int>) -> (res: Vec<
    DoctorFinding,
>)
    requires
        what@ == blocker_name(k),
    ensures
        finding_views(res@) == blocker_findings(bookmark@, k, *answer),
{
    match answer {
        Ok(count) => {
            if *count == 0 {
                let out: Vec<DoctorFinding> = Vec::new();
                assert(finding_views(out@) =~= Seq::<FindingView>::empty());
                out
            } else {
                let message = cat5(
                    size_number(*count).as_str(),
                    " ",
                    what,
                    " in ::",
                    bookmark,
                );
                let out: Vec<DoctorFinding> = vec![
                    deep_finding(
                        DoctorSeverity::Warning,
                        DoctorFindingCode::TargetHygiene,
                        message,
                        Some(
                            copy(
                                "these block pushing the target; landing onto it is refused until clean",
                            ),
                        ),
                    ),
                ];
                assert(finding_views(out@) =~= blocker_findings(bookmark@, k, *answer));
                out
            }
        },
        Err(e) => {
            let mut message = cat5("could not check ", what, " for ::", bookmark, ": ");
            message.append(e.as_str());
            let out: Vec<DoctorFinding> = vec![
                deep_finding(
                    DoctorSeverity::Warning,
                    DoctorFindingCode::TargetHygiene,
                    message,
                    None,
                ),
            ];
            assert(finding_views(out@) =~= blocker_findings(bookmark@, k, *answer));
            out
        },
    }
}

/// Push-blockers in the landing target's ancestry: conflicts, divergence, and
/// undescribed non-empty commits anywhere below the bookmark.
pub fn target_hygiene_findings(bookmark: &str, answers: &TargetAnswers) -> (res: Vec<DoctorFinding>)
    ensures
        finding_views(res@) == target_findings(bookmark@, *answers),
{
    let mut out = on_blocker(bookmark, "conflicted commit(s)", &answers.conflicted, Ghost(0));
    append_findings(
        &mut out,
        on_blocker(bookmark, "divergent change(s)", &answers.divergent, Ghost(1)),
    );
    append_findings(
        &mut out,
        on_blocker(bookmark, "undescribed non-empty commit(s)", &answers.undescribed, Ghost(2)),
    );
    assert(finding_views(out@).len() == out@.len());
    if out.len() == 0 {
        let clean: Vec<DoctorFinding> = vec![
            deep_finding(
                DoctorSeverity::Info,
                DoctorFindingCode::TargetHygiene,
                cat3("target '", bookmark, "' ancestry is clean and pushable"),
                None,
            ),
        ];
        assert(finding_views(clean@) =~= seq![clean_target(bookmark@)]);
        return clean;
    }
    out
}

/// A target is called clean and pushable exactly where every question was
/// answered and nothing blocks it; otherwise each answer that is not a zero
/// has a warning.
pub proof fn law_clean_means_pushable(bookmark: Seq<char>, answers: TargetAnswers)
    ensures
        target_findings(bookmark, answers) == seq![clean_target(bookmark)] <==> (
        answers.conflicted == Ok::<usize, String>(0) && answers.divergent == Ok::<usize, String>(0)
            && answers.undescribed == Ok::<usize, String>(0)),
        target_findings(bookmark, answers) != seq![clean_target(bookmark)] ==> forall|i: int|
            0 <= i < target_findings(bookmark, answers).len() ==> (
            #[trigger] target_findings(bookmark, answers)[i]).severity == DoctorSeverity::Warning,
{
    let a = blocker_findings(bookmark, 0, answers.conflicted);
    let b = blocker_findings(bookmark, 1, answers.divergent);
    let c = blocker_findings(bookmark, 2, answers.undescribed);
    let all = a + b + c;
    assert(all.len() == a.len() + b.len() + c.len());
    assert forall|i: int| 0 <= i < all.len() implies (#[trigger] all[i]).severity
        == DoctorSeverity::Warning by {
        if i < a.len() {
            assert(all[i] == a[i]);
        } else if i < a.len() + b.len() {
            assert(all[i] == b[i - a.len()]);
        } else {
            assert(all[i] == c[i - a.len() - b.len()]);
        }
    }
    if all.len() > 0 {
        assert(all[0].severity == DoctorSeverity::Warning);
        assert(seq![clean_target(bookmark)][0].severity == DoctorSeverity::Info);
    }
}

// ---------------------------------------------------------------------------
// Conflicts and heads

/// The revset of all conflicts.
pub const CONFLICTS_REVSET: &'static str = "conflicts()";

/// The revset of heads that nothing owns.
pub const ORPHANS_REVSET: &'static str = "heads(all()) ~ working_copies() ~ bookmarks()";

/// The finding on visible conflicts.
pub open spec fn conflicts_finding(answer: Answer<usize>) -> FindingView {
    match answer {
        Ok(count) => if count == 0 {
            on_repo(
                DoctorSeverity::Info,
                DoctorFindingCode::ConflictedCommits,
                "no visible conflicted commits"@,
                None,
            )
        } else {
            on_repo(
                DoctorSeverity::Warning,
                DoctorFindingCode::ConflictedCommits,
                text::decimal(count as nat) + " visible conflicted commit(s)"@,
                Some("conflicts in a bookmark's ancestry will block pushing it"@),
            )
        },
        Err(e) => on_repo(
            DoctorSeverity::Warning,
            DoctorFindingCode::ConflictedCommits,
            "could not count conflicted commits: "@ + e@,
            None,
        ),
    }
}

/// The ids of the first five revisions.
pub open spec fn sample_ids(revisions: Seq<LaneRev>) -> Seq<Seq<char>> {
    (if revisions.len() > 5 {
        revisions.take(5)
    } else {
        revisions
    }).map_values(|r: LaneRev| r.commit_id@)
}

/// The finding on heads that nothing owns.
pub open spec fn orphans_finding(answer: Answer<Vec<LaneRev>>) -> FindingView {
    match answer {
        Ok(orphans) => if orphans@.len() == 0 {
            on_repo(
                DoctorSeverity::Info,
                DoctorFindingCode::OrphanHeads,
                "every head is a working copy or bookmarked"@,
                None,
            )
        } else {
            on_repo(
                DoctorSeverity::Warning,
                DoctorFindingCode::OrphanHeads,
                text::decimal(orphans@.len())
                    + " orphan head(s): work not owned by any workspace or bookmark"@,
                Some("for example: "@ + text::join(sample_ids(orphans@), ", "@)),
            )
        },
        Err(e) => on_repo(
            DoctorSeverity::Warning,
            DoctorFindingCode::OrphanHeads,
            "could not inventory heads: "@ + e@,
            None,
        ),
    }
}

fn on_conflicts(answer: &Answer<usize>) -> (res: DoctorFinding)
    ensures
        res@ == conflicts_finding(*answer),
{
    match answer {
        Ok(count) => {
            if *count == 0 {
                deep_finding(
                    DoctorSeverity::Info,
                    DoctorFindingCode::ConflictedCommits,
                    copy("no visible conflicted commits"),
                    None,
                )
            } else {
                deep_finding(
                    DoctorSeverity::Warning,
                    DoctorFindingCode::ConflictedCommits,
                    cat2(size_number(*count).as_str(), " visible conflicted commit(s)"),
                    Some(copy("conflicts in a bookmark's ancestry will block pushing it")),
                )
            }
        },
        Err(e) => deep_finding(
            DoctorSeverity::Warning,
            DoctorFindingCode::ConflictedCommits,
            cat2("could not count conflicted commits: ", e.as_str()),
            None,
        ),
    }
}

fn first_ids(revisions: &Vec<LaneRev>) -> (res: Vec<String>)
    ensures
        text::views(res@) == sample_ids(revisions@),
{
    broadcast use text::lemma_views_push;

    let n: usize = if revisions.len() > 5 {
        5
    } else {
        revisions.len()
    };
    let ghost all = sample_ids(revisions@);
    let mut out: Vec<String> = Vec::new();
    let mut i: usize = 0;
    assert(text::views(out@) =~= all.take(0));
    while i < n
        invariant
            i <= n <= revisions@.len(),
            all == sample_ids(revisions@),
            all.len() == n,
            text::views(out@) == all.take(i as int),
        decreases n - i,
    {
        out.push(copy(revisions[i].commit_id.as_str()));
        i = i + 1;
        assert(all.take(i as int) =~= all.take(i - 1).push(all[i - 1]));
    }
    assert(all.take(i as int) =~= all);
    out
}

fn on_orphans(answer: &Answer<Vec<LaneRev>>) -> (res: DoctorFinding)
    ensures
        res@ == orphans_finding(*answer),
{
    match answer {
        Ok(orphans) => {
            if orphans.len() == 0 {
                deep_finding(
                    DoctorSeverity::Info,
                    DoctorFindingCode::OrphanHeads,
                    copy("every head is a working copy or bookmarked"),
                    None,
                )
            } else {
                deep_finding(
                    DoctorSeverity::Warning,
                    DoctorFindingCode::OrphanHeads,
                    cat2(
                        size_number(orphans.len()).as_str(),
                        " orphan head(s): work not owned by any workspace or bookmark",
                    ),
                    Some(cat2("for example: ", joined(&first_ids(orphans), ", ").as_str())),
                )
            }
        },
        Err(e) => deep_finding(
            DoctorSeverity::Warning,
            DoctorFindingCode::OrphanHeads,
            cat2("could not inventory heads: ", e.as_str()),
            None,
        ),
    }
}

// ---------------------------------------------------------------------------
// Landings

/// The id of the change that a lane landed, where it is recorded.
pub open spec fn landed_change(record: LaneRecord) -> Option<Seq<char>> {
    match record.last_land {
        Some(land) => text::opt_view(land.change_id),
        None => None,
    }
}

/// What is said of a landed change that is not what it was. `found` is what
/// its id stands for now, where it resolves at all.
pub open spec fn amended_message(
    name: Seq<char>,
    change: Seq<char>,
    head: Seq<char>,
    found: Option<Vec<LaneRev>>,
) -> Option<Seq<char>> {
    let lead = "lane '"@ + name + "' landed change "@ + change;
    match found {
        Some(revisions) => if revisions@.len() == 1 {
            if revisions@[0].commit_id@ == head {
                None
            } else {
                Some(
                    lead + " as "@ + head + " but it now points at "@ + revisions@[0].commit_id@,
                )
            }
        } else if revisions@.len() == 0 {
            Some(lead + " but it is no longer visible"@)
        } else {
            Some(lead + " which is now divergent"@)
        },
        None => Some(lead + " which no longer resolves cleanly"@),
    }
}

/// The finding on what a lane landed, if there is one.
pub open spec fn amended_finding(record: LaneRecord, found: Option<Vec<LaneRev>>) -> Option<
    FindingView,
> {
    match (record.last_land, landed_change(record)) {
        (Some(land), Some(change)) => match amended_message(
            record.name@,
            change,
            land.head_commit@,
            found,
        ) {
            Some(message) => Some(
                on_workspace(
                    DoctorSeverity::Warning,
                    DoctorFindingCode::MergedThenAmended,
                    record.name@,
                    message,
                    Some(
                        "amending after landing smears conflicts into descendants; prefer a follow-up change"@,
                    ),
                    None,
                ),
            ),
            None => None,
        },
        _ => None,
    }
}

/// The findings on what the first lanes landed.
pub open spec fn amended_findings(
    records: Seq<LaneRecord>,
    found: Seq<Option<Vec<LaneRev>>>,
    n: nat,
) -> Seq<FindingView>
    decreases n,
{
    if n == 0 {
        Seq::empty()
    } else {
        let before = amended_findings(records, found, (n - 1) as nat);
        match amended_finding(records[n - 1], found[n - 1]) {
            Some(finding) => before.push(finding),
            None => before,
        }
    }
}

/// The request for what a landed change stands for now; none for a lane that
/// recorded no landed change.
pub fn landed_change_request(record: &LaneRecord) -> (res: Option<JjRequest>)
    ensures
        match (res, landed_change(*record)) {
            (Some(request), Some(change)) => request@ == jj::revisions_args(change),
            (None, None) => true,
            _ => false,
        },
{
    match &record.last_land {
        Some(land) => match &land.change_id {
            Some(change) => Some(JjRequest::revisions(change.as_str())),
            None => None,
        },
        None => None,
    }
}

fn on_landing(record: &LaneRecord, found: &Option<Vec<LaneRev>>) -> (res: Option<DoctorFinding>)
    ensures
        match (res, amended_finding(*record, *found)) {
            (Some(finding), Some(view)) => finding@ == view,
            (None, None) => true,
            _ => false,
        },
{
    let land = match &record.last_land {
        Some(land) => land,
        None => {
            return None;
        },
    };
    let change = match &land.change_id {
        Some(change) => change,
        None => {
            return None;
        },
    };
    let lead = cat4("lane '", record.name.as_str(), "' landed change ", change.as_str());
    let message = match found {
        Some(revisions) => {
            if revisions.len() == 1 {
                if same(revisions[0].commit_id.as_str(), land.head_commit.as_str()) {
                    return None;
                }
                cat5(
                    lead.as_str(),
                    " as ",
                    land.head_commit.as_str(),
                    " but it now points at ",
                    revisions[0].commit_id.as_str(),
                )
            } else if revisions.len() == 0 {
                cat2(lead.as_str(), " but it is no longer visible")
            } else {
                cat2(lead.as_str(), " which is now divergent")
            }
        },
        None => cat2(lead.as_str(), " which no longer resolves cleanly"),
    };
    Some(
        workspace_finding(
            DoctorSeverity::Warning,
            DoctorFindingCode::MergedThenAmended,
            &record.name,
            message,
            Some(
                copy(
                    "amending after landing smears conflicts into descendants; prefer a follow-up change",
                ),
            ),
            None,
        ),
    )
}

/// Pinned-landing check: a landed change whose change id now resolves to a
/// different commit was amended after landing. `found` holds, for each lane,
/// what its landed change stands for now.
pub fn merged_then_amended_findings(
    records: &Vec<LaneRecord>,
    found: &Vec<Option<Vec<LaneRev>>>,
) -> (res: Vec<DoctorFinding>)
    requires
        records@.len() == found@.len(),
    ensures
        finding_views(res@) == amended_findings(records@, found@, records@.len()),
{
    broadcast use lemma_findings_push;

    let mut out: Vec<DoctorFinding> = Vec::new();
    let mut i: usize = 0;
    proof {
        lemma_findings_empty(out@);
    }
    while i < records.len()
        invariant
            i <= records@.len(),
            records@.len() == found@.len(),
            finding_views(out@) == amended_findings(records@, found@, i as nat),
        decreases records@.len() - i,
    {
        if let Some(finding) = on_landing(&records[i], &found[i]) {
            out.push(finding);
        }
        i = i + 1;
    }
    out
}

// ---------------------------------------------------------------------------
// The deep findings

/// What a deep diagnosis asked and was told.
pub struct DeepAnswers {
    pub engine: Answer<EngineAnswers>,
    /// The bookmark that lanes land into, with what blocks pushing it.
    pub target: Option<(String, TargetAnswers)>,
    /// Number of visible conflicts.
    pub conflicts: Answer<usize>,
    /// Heads that nothing owns.
    pub orphans: Answer<Vec<LaneRev>>,
}

/// The deep findings.
pub open spec fn deep_findings(
    answers: DeepAnswers,
    records: Seq<LaneRecord>,
    found: Seq<Option<Vec<LaneRev>>>,
) -> Seq<FindingView> {
    engine_finding_views(answers.engine) + (match answers.target {
        Some((bookmark, target)) => target_findings(bookmark@, target),
        None => Seq::empty(),
    }) + seq![conflicts_finding(answers.conflicts), orphans_finding(answers.orphans)]
        + amended_findings(records, found, records.len())
}

/// Deep hygiene findings: divergence, op churn, push-blockers of the landing
/// target, conflicts, orphan heads, and merged-then-amended landings.
pub fn collect_deep_findings(
    answers: &DeepAnswers,
    records: &Vec<LaneRecord>,
    found: &Vec<Option<Vec<LaneRev>>>,
) -> (res: Vec<DoctorFinding>)
    requires
        records@.len() == found@.len(),
    ensures
        finding_views(res@) == deep_findings(*answers, records@, found@),
{
    let mut out = engine_findings(&answers.engine);
    if let Some((bookmark, target)) = &answers.target {
        append_findings(&mut out, target_hygiene_findings(bookmark.as_str(), target));
    }
    let ghost front = finding_views(out@);
    let plain: Vec<DoctorFinding> = vec![
        on_conflicts(&answers.conflicts),
        on_orphans(&answers.orphans),
    ];
    let ghost pair = seq![conflicts_finding(answers.conflicts), orphans_finding(answers.orphans)];
    assert(finding_views(plain@) =~= pair);
    append_findings(&mut out, plain);
    append_findings(&mut out, merged_then_amended_findings(records, found));
    assert(finding_views(out@) =~= deep_findings(*answers, records@, found@));
    out
}

// ---------------------------------------------------------------------------
// The report

/// The weights of some findings.
pub open spec fn weights(findings: Seq<FindingView>) -> Seq<int> {
    findings.map_values(|f: FindingView| f.severity.weight())
}

impl DoctorReport {
    /// Put the findings together, the most serious first, and among equally
    /// serious ones in the order in which they were found.
    pub fn assemble(
        ground: Vec<DoctorFinding>,
        workspaces: Vec<DoctorFinding>,
        shell: Vec<DoctorFinding>,
        deep: Vec<DoctorFinding>,
    ) -> (res: DoctorReport)
        ensures
            ({
                let all = finding_views(ground@) + finding_views(workspaces@) + finding_views(
                    shell@,
                ) + finding_views(deep@);
                order::sorted_falling(finding_views(res.findings@), all, weights(all))
            }),
    {
        let mut all = ground;
        append_findings(&mut all, workspaces);
        append_findings(&mut all, shell);
        append_findings(&mut all, deep);
        let ghost items = all@;
        let ghost views = finding_views(items);
        let mut keys: Vec<i128> = Vec::new();
        let mut i: usize = 0;
        assert(order::key_values(keys@) =~= weights(views).take(0));
        while i < all.len()
            invariant
                i <= all@.len(),
                items == all@,
                views == finding_views(items),
                order::key_values(keys@) == weights(views).take(i as int),
            decreases all@.len() - i,
        {
            let key: i128 = match all[i].severity {
                DoctorSeverity::Error => 2,
                DoctorSeverity::Warning => 1,
                DoctorSeverity::Info => 0,
            };
            let ghost before = keys@;
            keys.push(key);
            i = i + 1;
            proof {
                assert(order::key_values(keys@) =~= order::key_values(before).push(key as int));
                assert(weights(views).take(i as int) =~= weights(views).take(i - 1).push(
                    weights(views)[i - 1],
                ));
            }
        }
        assert(weights(views).take(i as int) =~= weights(views));
        let findings = sort_falling(all, &keys);
        proof {
            let perm = choose|perm: Seq<int>| #[trigger]
                order::falling_positions(perm, weights(views)) && findings@ == perm.map_values(
                    |p: int| items[p],
                );
            assert(finding_views(findings@) =~= perm.map_values(|p: int| views[p]));
        }
        DoctorReport { findings }
    }
}

/// A report puts the serious findings first.
pub proof fn law_serious_findings_come_first(
    report: Seq<FindingView>,
    all: Seq<FindingView>,
    i: int,
    j: int,
)
    requires
        order::sorted_falling(report, all, weights(all)),
        0 <= i < j < report.len(),
    ensures
        report[i].severity.weight() >= report[j].severity.weight(),
{
    let keys = weights(all);
    let perm = choose|perm: Seq<int>| #[trigger]
        order::falling_positions(perm, keys) && report == perm.map_values(|p: int| all[p]);
    assert(order::falls(keys, perm[i], perm[j]));
}

/// Errors come before warnings and warnings before what is only worth knowing,
/// and no finding is lost or made up.
pub proof fn law_report_is_complete_and_ordered(
    report: Seq<FindingView>,
    all: Seq<FindingView>,
    i: int,
    j: int,
)
    requires
        order::sorted_falling(report, all, weights(all)),
    ensures
        report.len() == all.len(),
        0 <= i < j < report.len() && report[j].severity == DoctorSeverity::Error
            ==> report[i].severity == DoctorSeverity::Error,
        0 <= i < j < report.len() && report[i].severity == DoctorSeverity::Info
            ==> report[j].severity == DoctorSeverity::Info,
        0 <= i < report.len() ==> all.contains(report[i]),
        0 <= i < all.len() ==> report.contains(all[i]),
{
    let keys = weights(all);
    let perm = choose|perm: Seq<int>| #[trigger]
        order::falling_positions(perm, keys) && report == perm.map_values(|p: int| all[p]);
    if 0 <= i < j < report.len() {
        law_serious_findings_come_first(report, all, i, j);
    }
    if 0 <= i < report.len() {
        assert(report[i] == all[perm[i]]);
    }
    if 0 <= i < all.len() {
        if all.len() > 1 {
            order::law_falling_order(perm, keys, 0, 1, i);
        } else {
            assert(perm[0] == 0);
        }
        let k = choose|k: int| 0 <= k < perm.len() && perm[k] == i;
        assert(report[k] == all[i]);
    }
}

/// What is found of a workspace's directory: nothing where it is confirmed; a
/// warning exactly where it is missing or stale; and the finding names the
/// workspace and its path.
pub proof fn law_directory_findings(s: DoctorSnapshot)
    ensures
        ({
            let found = path_findings(s);
            let state = s.snapshot.path.state;
            &&& found.len() <= 1
            &&& state == WorkspacePathState::Confirmed ==> found.len() == 0
            &&& state == WorkspacePathState::Missing ==> found.len() == 1 && found[0].code
                == DoctorFindingCode::WorkspaceDirectoryMissing
            &&& state == WorkspacePathState::Stale ==> found.len() == 1 && found[0].code
                == DoctorFindingCode::WorkspaceDirectoryStale
            &&& state == WorkspacePathState::Inferred && (s.snapshot.path.source
                == WorkspacePathSource::NaviMetadata || s.snapshot.path.source
                == WorkspacePathSource::Template) ==> found.len() == 1 && found[0].code
                == DoctorFindingCode::WorkspacePathInferred
            &&& found.len() == 1 ==> {
                &&& found[0].workspace == Some(s.snapshot.name@)
                &&& found[0].path == Some(s.display_path@)
                &&& found[0].severity == DoctorSeverity::Warning <==> state
                    == WorkspacePathState::Missing || state == WorkspacePathState::Stale
                &&& found[0].severity == DoctorSeverity::Info <==> state
                    == WorkspacePathState::Inferred
            }
        }),
{
}

/// That a workspace has no metadata is said exactly where the metadata could be
/// read, has no record of it, and should have one; it is no more than a note.
pub proof fn law_missing_record_is_noted(s: DoctorSnapshot, metadata_is_valid: bool)
    requires
        s.snapshot.path.state != WorkspacePathState::Inferred,
    ensures
        ({
            let found = snapshot_findings(s, metadata_is_valid);
            let noted = metadata_is_valid && s.expects_metadata && s.snapshot.health.metadata_status
                == WorkspaceMetadataStatus::MissingRecord;
            &&& found.take(path_findings(s).len() as int) == path_findings(s)
            &&& !noted ==> found == path_findings(s)
            &&& noted ==> found.len() == path_findings(s).len() + 1 && found.last().code
                == DoctorFindingCode::JjOnlyWorkspace && found.last().workspace == Some(
                s.snapshot.name@,
            ) && found.last().severity == DoctorSeverity::Info
        }),
{
    let found = snapshot_findings(s, metadata_is_valid);
    assert(found.take(path_findings(s).len() as int) =~= path_findings(s));
}

/// The findings on workspaces are those on each of them, in their order.
pub proof fn law_findings_add_up(
    some: Seq<DoctorSnapshot>,
    more: Seq<DoctorSnapshot>,
    metadata_is_valid: bool,
)
    ensures
        all_snapshot_findings(some + more, metadata_is_valid) == all_snapshot_findings(
            some,
            metadata_is_valid,
        ) + all_snapshot_findings(more, metadata_is_valid),
        forall|s: DoctorSnapshot| #[trigger]
            all_snapshot_findings(seq![s], metadata_is_valid) == snapshot_findings(
                s,
                metadata_is_valid,
            ),
    decreases more.len(),
{
    let v = metadata_is_valid;
    if more.len() == 0 {
        assert(some + more =~= some);
        assert(all_snapshot_findings(some + more, v) =~= all_snapshot_findings(some, v)
            + all_snapshot_findings(more, v));
    } else {
        law_findings_add_up(some, more.drop_last(), v);
        assert((some + more).drop_last() =~= some + more.drop_last());
        assert((some + more).last() == more.last());
        assert(all_snapshot_findings(some + more, v) =~= all_snapshot_findings(some, v)
            + all_snapshot_findings(more, v));
    }
    assert forall|s: DoctorSnapshot| #[trigger]
        all_snapshot_findings(seq![s], v) == snapshot_findings(s, v) by {
        reveal_with_fuel(all_snapshot_findings, 2);
        assert(seq![s].drop_last() =~= Seq::<DoctorSnapshot>::empty());
        assert(seq![s].last() == s);
        assert(all_snapshot_findings(seq![s], v) =~= snapshot_findings(s, v));
    }
}

/// Metadata that jj lists no workspace for is found, whatever its place, and no
/// other metadata is; where the metadata could not be read, none of it is.
pub proof fn law_metadata_without_a_workspace_is_found(
    snapshots: Seq<DoctorSnapshot>,
    entries: Seq<MetadataEntry>,
    k: int,
)
    ensures
        workspace_findings(snapshots, entries, false) == all_snapshot_findings(snapshots, false),
        workspace_findings(snapshots, entries, true) == all_snapshot_findings(snapshots, true)
            + all_metadata_only(snapshots, entries),
        0 <= k < entries.len() && (forall|i: int|
            0 <= i < snapshots.len() ==> (#[trigger] snapshots[i]).snapshot.name@
                != entries[k].name@) ==> exists|f: int|
            0 <= f < all_metadata_only(snapshots, entries).len() && (
            #[trigger] all_metadata_only(snapshots, entries)[f]).workspace == Some(entries[k].name@),
        0 <= k < all_metadata_only(snapshots, entries).len() ==> {
            let found = all_metadata_only(snapshots, entries)[k];
            &&& found.code == DoctorFindingCode::MetadataOnlyWorkspace
            &&& found.severity == DoctorSeverity::Warning
            &&& exists|e: int|
                0 <= e < entries.len() && found.workspace == Some(
                    (#[trigger] entries[e]).name@,
                ) && found.path == text::opt_view(entries[e].display_path) && forall|i: int|
                    0 <= i < snapshots.len() ==> (#[trigger] snapshots[i]).snapshot.name@
                        != entries[e].name@
        },
    decreases entries.len(),
{
    let all = all_metadata_only(snapshots, entries);
    if entries.len() > 0 {
        let front = entries.drop_last();
        let last = entries.len() - 1;
        let before = all_metadata_only(snapshots, front);
        law_metadata_without_a_workspace_is_found(snapshots, front, k);
        if 0 <= k < entries.len() && !is_listed(snapshots, entries[k].name@) {
            if k < last {
                assert(front[k] == entries[k]);
                let f = choose|f: int|
                    0 <= f < before.len() && (#[trigger] before[f]).workspace == Some(
                        entries[k].name@,
                    );
                assert(all[f] == before[f]);
            } else {
                assert(all[before.len() as int].workspace == Some(entries[k].name@));
            }
        }
        if 0 <= k < all.len() {
            if k < before.len() {
                assert(all[k] == before[k]);
                let e = choose|e: int|
                    0 <= e < front.len() && before[k].workspace == Some(
                        (#[trigger] front[e]).name@,
                    ) && before[k].path == text::opt_view(front[e].display_path) && forall|i: int|
                        0 <= i < snapshots.len() ==> (#[trigger] snapshots[i]).snapshot.name@
                            != front[e].name@;
                assert(entries[e] == front[e]);
            } else {
                assert(all[k] == metadata_only(entries[last]));
                assert(!is_listed(snapshots, entries[last].name@));
            }
        }
    }
}

/// Each count is reported as it is: nothing found is a note, something found is
/// a warning with the number, and what could not be found out is a warning with
/// the reason.
pub proof fn law_counts_are_reported(count: usize, reason: String)
    ensures
        ({
            let divergent = divergence_finding(Ok(count));
            &&& divergent.code == DoctorFindingCode::DivergentChanges
            &&& divergent.severity == DoctorSeverity::Info <==> count == 0
            &&& divergent.severity == DoctorSeverity::Warning <==> count > 0
            &&& count > 0 ==> divergent.message == text::decimal(count as nat)
                + " divergent change(s)"@ && divergent.hint == Some("run: navi heal"@)
        }),
        ({
            let conflicts = conflicts_finding(Ok(count));
            &&& conflicts.code == DoctorFindingCode::ConflictedCommits
            &&& conflicts.severity == DoctorSeverity::Info <==> count == 0
            &&& conflicts.severity == DoctorSeverity::Warning <==> count > 0
            &&& count > 0 ==> conflicts.message == text::decimal(count as nat)
                + " visible conflicted commit(s)"@
        }),
        divergence_finding(Err(reason)).severity == DoctorSeverity::Warning && divergence_finding(
            Err(reason),
        ).message == "could not enumerate divergent changes: "@ + reason@,
        conflicts_finding(Err(reason)).severity == DoctorSeverity::Warning && conflicts_finding(
            Err(reason),
        ).message == "could not count conflicted commits: "@ + reason@,
        churn_finding(Err(reason)).severity == DoctorSeverity::Warning && churn_finding(
            Err(reason),
        ).message == "could not walk the operation log: "@ + reason@,
        orphans_finding(Err(reason)).severity == DoctorSeverity::Warning,
        forall|capped: bool|
            #![trigger churn_finding(Ok(OpChurn { recent: count, capped }))]
            {
                let churn = churn_finding(Ok(OpChurn { recent: count, capped }));
                &&& churn.code == DoctorFindingCode::OpChurn
                &&& churn.severity == DoctorSeverity::Warning <==> capped
                &&& churn.hint is Some <==> capped
                &&& churn.message == text::decimal(count as nat) + (if capped {
                    "+"@
                } else {
                    ""@
                }) + " operation(s) in the last 24h"@
            },
{
}

/// Heads that nothing owns are counted, all of them, and the first five are
/// named.
pub proof fn law_orphan_heads_are_counted(orphans: Vec<LaneRev>, i: int)
    ensures
        orphans_finding(Ok(orphans)).severity == DoctorSeverity::Info <==> orphans@.len() == 0,
        orphans_finding(Ok(orphans)).severity == DoctorSeverity::Warning <==> orphans@.len() > 0,
        orphans@.len() > 0 ==> text::starts_with(
            orphans_finding(Ok(orphans)).message,
            text::decimal(orphans@.len()) + " orphan head(s)"@,
        ),
        sample_ids(orphans@).len() == (if orphans@.len() < 5 {
            orphans@.len() as int
        } else {
            5
        }),
        0 <= i < sample_ids(orphans@).len() ==> sample_ids(orphans@)[i] == orphans@[i].commit_id@,
{
    let n = text::decimal(orphans@.len());
    if orphans@.len() > 0 {
        reveal_strlit(" orphan head(s)");
        reveal_strlit(" orphan head(s): work not owned by any workspace or bookmark");
        let message = orphans_finding(Ok(orphans)).message;
        let head = n + " orphan head(s)"@;
        assert(message.take(head.len() as int) =~= head);
    }
}

/// What blocks a landing target is looked for below its bookmark, and is found
/// kind by kind: as many findings as there are kinds with a blocker or without
/// an answer, in the order conflicts, divergence, missing descriptions.
pub proof fn law_blockers_are_told_apart(bookmark: Seq<char>, answers: TargetAnswers)
    ensures
        blocker_revset(bookmark, 0) == "conflicts() & ::"@ + revset::quoted(bookmark),
        blocker_revset(bookmark, 1) == "divergent() & ::"@ + revset::quoted(bookmark),
        blocker_revset(bookmark, 2) == "::"@ + revset::quoted(bookmark)
            + " & description(exact:\"\") ~ empty() ~ root()"@,
        answers.conflicted matches Ok(n) ==> (n > 0 ==> target_findings(bookmark, answers)[0].message
            == text::decimal(n as nat) + " conflicted commit(s) in ::"@ + bookmark),
        answers.conflicted == Ok::<usize, String>(0) ==> (answers.divergent matches Ok(n) ==> (n > 0
            ==> target_findings(bookmark, answers)[0].message == text::decimal(n as nat)
            + " divergent change(s) in ::"@ + bookmark)),
        answers.conflicted == Ok::<usize, String>(0) && answers.divergent == Ok::<usize, String>(0)
            ==> (answers.undescribed matches Ok(n) ==> (n > 0 ==> target_findings(
            bookmark,
            answers,
        )[0].message == text::decimal(n as nat) + " undescribed non-empty commit(s) in ::"@
            + bookmark)),
        ({
            let a = if answers.conflicted == Ok::<usize, String>(0) { 0int } else { 1 };
            let b = if answers.divergent == Ok::<usize, String>(0) { 0int } else { 1 };
            let c = if answers.undescribed == Ok::<usize, String>(0) { 0int } else { 1 };
            a + b + c > 0 ==> target_findings(bookmark, answers).len() == a + b + c
        }),
{
    reveal_strlit(" ");
    reveal_strlit(" in ::");
    reveal_strlit("conflicted commit(s)");
    reveal_strlit("divergent change(s)");
    reveal_strlit("undescribed non-empty commit(s)");
    reveal_strlit(" conflicted commit(s) in ::");
    reveal_strlit(" divergent change(s) in ::");
    reveal_strlit(" undescribed non-empty commit(s) in ::");
    assert(" "@ + "conflicted commit(s)"@ + " in ::"@ =~= " conflicted commit(s) in ::"@);
    assert(" "@ + "divergent change(s)"@ + " in ::"@ =~= " divergent change(s) in ::"@);
    assert(" "@ + "undescribed non-empty commit(s)"@ + " in ::"@
        =~= " undescribed non-empty commit(s) in ::"@);
    let a = blocker_findings(bookmark, 0, answers.conflicted);
    let b = blocker_findings(bookmark, 1, answers.divergent);
    let c = blocker_findings(bookmark, 2, answers.undescribed);
    assert((a + b + c).len() == a.len() + b.len() + c.len());
    if let Ok(n) = answers.conflicted {
        let d = text::decimal(n as nat);
        if n > 0 {
            assert((a + b + c)[0] == a[0]);
            assert(d + " "@ + "conflicted commit(s)"@ + " in ::"@ + bookmark =~= d + (" "@
                + "conflicted commit(s)"@ + " in ::"@) + bookmark);
        }
    }
    if let Ok(n) = answers.divergent {
        let d = text::decimal(n as nat);
        if n > 0 && answers.conflicted == Ok::<usize, String>(0) {
            assert((a + b + c)[0] == b[0]);
            assert(d + " "@ + "divergent change(s)"@ + " in ::"@ + bookmark =~= d + (" "@
                + "divergent change(s)"@ + " in ::"@) + bookmark);
        }
    }
    if let Ok(n) = answers.undescribed {
        let d = text::decimal(n as nat);
        if n > 0 && answers.conflicted == Ok::<usize, String>(0) && answers.divergent == Ok::<
            usize,
            String,
        >(0) {
            assert((a + b + c)[0] == c[0]);
            assert(d + " "@ + "undescribed non-empty commit(s)"@ + " in ::"@ + bookmark =~= d + (
            " "@ + "undescribed non-empty commit(s)"@ + " in ::"@) + bookmark);
        }
    }
}

/// What a lane landed is as it was exactly where its change is still one commit
/// and that is the commit that landed; anything else is found, and says of the
/// lane and the change what became of it.
pub proof fn law_amended_landings_are_found(record: LaneRecord, found: Option<Vec<LaneRev>>)
    ensures
        record.last_land is None ==> amended_finding(record, found) is None,
        record.last_land matches Some(land) ==> {
            &&& land.change_id is None ==> amended_finding(record, found) is None
            &&& land.change_id matches Some(change) ==> {
                let same = found matches Some(now) && now@.len() == 1 && now@[0].commit_id@
                    == land.head_commit@;
                let lead = "lane '"@ + record.name@ + "' landed change "@ + change@;
                &&& amended_finding(record, found) is None <==> same
                &&& amended_finding(record, found) matches Some(f) ==> {
                    &&& f.workspace == Some(record.name@)
                    &&& f.severity == DoctorSeverity::Warning
                    &&& f.code == DoctorFindingCode::MergedThenAmended
                    &&& f.message == lead + (match found {
                        None => " which no longer resolves cleanly"@,
                        Some(now) => if now@.len() == 0 {
                            " but it is no longer visible"@
                        } else if now@.len() > 1 {
                            " which is now divergent"@
                        } else {
                            " as "@ + land.head_commit@ + " but it now points at "@
                                + now@[0].commit_id@
                        },
                    })
                }
            }
        },
{
    if let Some(land) = record.last_land {
        if let Some(change) = land.change_id {
            if let Some(now) = found {
                if now@.len() == 1 {
                    let lead = "lane '"@ + record.name@ + "' landed change "@ + change@;
                    assert(lead + " as "@ + land.head_commit@ + " but it now points at "@
                        + now@[0].commit_id@ =~= lead + (" as "@ + land.head_commit@
                        + " but it now points at "@ + now@[0].commit_id@));
                }
            }
        }
    }
}

/// Every lane whose landing was amended is found, and nothing else is.
pub proof fn law_every_amended_landing_is_found(
    records: Seq<LaneRecord>,
    found: Seq<Option<Vec<LaneRev>>>,
    n: nat,
    finding: FindingView,
)
    requires
        n <= records.len(),
        records.len() == found.len(),
    ensures
        amended_findings(records, found, n).contains(finding) <==> exists|i: int|
            #![trigger records[i]]
            0 <= i < n && amended_finding(records[i], found[i]) == Some(finding),
    decreases n,
{
    let all = amended_findings(records, found, n);
    if n > 0 {
        let before = amended_findings(records, found, (n - 1) as nat);
        law_every_amended_landing_is_found(records, found, (n - 1) as nat, finding);
        if all.contains(finding) {
            let k = choose|k: int| 0 <= k < all.len() && all[k] == finding;
            if k < before.len() {
                assert(before[k] == finding);
                assert(before.contains(finding));
            } else {
                assert(amended_finding(records[n - 1], found[n - 1]) == Some(finding));
            }
        }
        if exists|i: int|
            #![trigger records[i]]
            0 <= i < n && amended_finding(records[i], found[i]) == Some(finding) {
            let i = choose|i: int|
                #![trigger records[i]]
                0 <= i < n && amended_finding(records[i], found[i]) == Some(finding);
            if i < n - 1 {
                assert(before.contains(finding));
                let k = choose|k: int| 0 <= k < before.len() && before[k] == finding;
                assert(all[k] == finding);
            } else {
                assert(all[before.len() as int] == finding);
            }
        }
    }
}

/// The deep findings are one each on conflicts and on heads, two on the engine
/// or one where it is not there, those on the target where there is one, and
/// those on landings; none is lost.
pub proof fn law_deep_findings_are_complete(
    answers: DeepAnswers,
    records: Seq<LaneRecord>,
    found: Seq<Option<Vec<LaneRev>>>,
    k: int,
)
    ensures
        ({
            let all = deep_findings(answers, records, found);
            let amended = amended_findings(records, found, records.len());
            &&& all.contains(conflicts_finding(answers.conflicts))
            &&& all.contains(orphans_finding(answers.orphans))
            &&& answers.engine matches Ok(a) ==> all[0] == divergence_finding(a.divergent) && all[1]
                == churn_finding(a.churn)
            &&& answers.engine matches Err(e) ==> all[0].message
                == "embedded engine unavailable: "@ + e@ && all[0].severity
                == DoctorSeverity::Warning
            &&& answers.target matches Some((bookmark, target)) ==> (0 <= k < target_findings(
                bookmark@,
                target,
            ).len() ==> all.contains(target_findings(bookmark@, target)[k]))
            &&& 0 <= k < amended.len() ==> all.contains(amended[k])
        }),
{
    let all = deep_findings(answers, records, found);
    let engine = engine_finding_views(answers.engine);
    let target = match answers.target {
        Some((bookmark, target)) => target_findings(bookmark@, target),
        None => Seq::empty(),
    };
    let amended = amended_findings(records, found, records.len());
    let n = (engine.len() + target.len()) as int;
    assert(all[n] == conflicts_finding(answers.conflicts));
    assert(all[n + 1] == orphans_finding(answers.orphans));
    assert(all[0] == engine[0]);
    if engine.len() > 1 {
        assert(all[1] == engine[1]);
    }
    if 0 <= k < target.len() {
        assert(all[engine.len() + k] == target[k]);
    }
    if 0 <= k < amended.len() {
        assert(all[n + 2 + k] == amended[k]);
    }
}

} // verus!
