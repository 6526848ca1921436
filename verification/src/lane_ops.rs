//! Lane workflow operations.
//!
//! A lane is a jj workspace plus a declared write-set, registered in repo
//! storage. The workflow keeps every lane rebased onto the trunk head (small,
//! early, attributed conflicts) and lands work by fast-forwarding trunk onto
//! an already-synced lane chain, so landing itself can never conflict. `jj`
//! stays the source of truth for all live state; the registry stores only
//! declarations and lifecycle facts. The functions here decide; what they ask
//! of `jj` are requests whose answers they are given.

use vstd::prelude::*;

use crate::config::{self, archive_dir_path, path_join};
use crate::error::{self, Error, ErrorKind, Result};
use crate::jj::{self, JjRequest};
use crate::jj_output;
use crate::lane_rules::{
    self, check_overlap_excluding, merged_paths, remaining_paths, require_open_lane, unscoped_paths,
};
use crate::lane_store::{self, LaneRecord, LaneStore, RecordView};
use crate::order::{self, sorted_set};
use crate::revset::{self, quote_revset_string, workspace_revset_symbol};
use crate::text::{self, cat3, cat4, cat5, copy, copy_opt, replaced, size_number, trimmed};
use crate::timestamp::Timestamp;
use crate::types::{
    self, clone_paths, path_texts, LaneGcPlan, LaneLifecycle, LaneListEntry, LaneOpenOutcome,
    LanePath, LaneRev, RepoConfig, RevView, WorkspaceName,
};

verus! {

/// An opened workspace of a repo.
pub struct NaviWorkspace {
    /// Directory of the workspace.
    pub workspace_root: String,
    /// Its name.
    pub workspace_name: WorkspaceName,
    /// Shared repo storage.
    pub repo_storage_path: String,
    /// Name of the repo.
    pub repo_name: String,
    /// Effective configuration.
    pub config: RepoConfig,
}

// ---------------------------------------------------------------------------
// The landing target

/// The revset whose one revision is the head that lanes sync onto: the parent
/// of the trunk workspace's working copy, or the target bookmark.
pub open spec fn target_revset(config: RepoConfig) -> Seq<char> {
    match config.lane.target {
        Some(bookmark) => "present("@ + revset::quoted(bookmark@) + ")"@,
        None => "parents("@ + revset::workspace_symbol(config.lane.trunk@) + ")"@,
    }
}

/// The head that lanes sync onto, given whether the trunk workspace exists and
/// what the revset selects.
pub open spec fn target_head(
    config: RepoConfig,
    trunk_exists: bool,
    heads: Seq<RevView>,
) -> std::result::Result<Seq<char>, error::ErrorView> {
    match config.lane.target {
        Some(bookmark) => if heads.len() == 0 {
            Err(error::about(ErrorKind::LaneTargetBookmarkMissing, bookmark@))
        } else if heads.len() == 1 {
            Ok(heads[0].commit_id)
        } else {
            Err(
                error::about2(
                    ErrorKind::LaneTrunkNotReady,
                    bookmark@,
                    "target bookmark points at "@ + text::decimal(heads.len())
                        + " commits; expected exactly one"@,
                ),
            )
        },
        None => if !trunk_exists {
            Err(error::about(ErrorKind::LaneTrunkMissing, config.lane.trunk@))
        } else if heads.len() == 1 {
            Ok(heads[0].commit_id)
        } else {
            Err(
                error::about2(
                    ErrorKind::LaneTrunkNotReady,
                    config.lane.trunk@,
                    "trunk working copy has "@ + text::decimal(heads.len())
                        + " parents; expected exactly one"@,
                ),
            )
        },
    }
}

// ---------------------------------------------------------------------------
// Opening

/// Why a lane cannot be opened.
pub open spec fn open_refusal(
    config: RepoConfig,
    records: Seq<LaneRecord>,
    name: Seq<char>,
    paths: Seq<Seq<char>>,
    allow_overlap: bool,
    workspace_exists: bool,
) -> Option<error::ErrorView> {
    if name == config.lane.trunk@ {
        Some(error::about(ErrorKind::LaneNameReserved, name))
    } else if paths.len() == 0 {
        Some(error::about(ErrorKind::InvalidLanePath, "(lane requires at least one --path)"@))
    } else if workspace_exists {
        Some(error::about(ErrorKind::LaneExists, name))
    } else if allow_overlap {
        None
    } else {
        lane_rules::overlap_refusal(records, name, paths, 0)
    }
}

/// A lane of this name is open.
pub open spec fn lane_is_open(records: Seq<LaneRecord>, name: Seq<char>) -> bool {
    lane_store::position_of(records, name) matches Some(i) && records[i].lifecycle
        == LaneLifecycle::Open
}

/// The paths that a sparse lane workspace shows.
pub open spec fn sparse_paths(config: RepoConfig, paths: Seq<Seq<char>>) -> Seq<Seq<char>> {
    paths.push(".gitignore"@) + types::path_views(config.lane.context_paths@)
}

/// What opening a lane takes after it is registered.
pub struct LaneOpenPlan {
    /// Creates the workspace.
    pub add: JjRequest,
    /// Fills a sparse workspace; to be run in it.
    pub materialize: Option<JjRequest>,
    /// What to report.
    pub outcome: LaneOpenOutcome,
}

// ---------------------------------------------------------------------------
// Questions about a lane

/// Changes of the lane that are not empty and not on the head.
pub open spec fn ahead_revset(head: Seq<char>, symbol: Seq<char>) -> Seq<char> {
    "("@ + head + ".."@ + symbol + ") ~ empty()"@
}

/// Changes below the head that the lane does not have.
pub open spec fn behind_revset(head: Seq<char>, symbol: Seq<char>) -> Seq<char> {
    "::"@ + head + " ~ ::"@ + symbol
}

/// Conflicted commits of the lane that are not below the head.
pub open spec fn lane_conflicts_revset(head: Seq<char>, symbol: Seq<char>) -> Seq<char> {
    "conflicts() & (::"@ + symbol + " ~ ::"@ + head + ")"@
}

/// Conflicted commits between the head and the lane.
pub open spec fn range_conflicts_revset(head: Seq<char>, symbol: Seq<char>) -> Seq<char> {
    "conflicts() & ("@ + head + ".."@ + symbol + ")"@
}

/// Where the lane forked off.
pub open spec fn fork_revset(head: Seq<char>, symbol: Seq<char>) -> Seq<char> {
    "heads(::"@ + head + " & ::"@ + symbol + ")"@
}

/// Changes of the lane that are not empty and not below the head.
pub open spec fn unlanded_revset(head: Seq<char>, symbol: Seq<char>) -> Seq<char> {
    "(::"@ + symbol + " ~ ::"@ + head + ") ~ empty()"@
}

/// Ask for the changes that a lane carries beyond the head.
pub fn ahead_request(head: &str, symbol: &str) -> (res: JjRequest)
    ensures
        res@ == jj::revisions_args(ahead_revset(head@, symbol@)),
{
    JjRequest::revisions(cat5("(", head, "..", symbol, ") ~ empty()").as_str())
}

/// Ask for the changes that a lane lacks.
pub fn behind_request(head: &str, symbol: &str) -> (res: JjRequest)
    ensures
        res@ == jj::revisions_args(behind_revset(head@, symbol@)),
{
    JjRequest::revisions(cat4("::", head, " ~ ::", symbol).as_str())
}

/// Ask for the conflicted commits of a lane.
pub fn lane_conflicts_request(head: &str, symbol: &str) -> (res: JjRequest)
    ensures
        res@ == jj::revisions_args(lane_conflicts_revset(head@, symbol@)),
{
    JjRequest::revisions(cat5("conflicts() & (::", symbol, " ~ ::", head, ")").as_str())
}

/// Ask for the conflicted commits between the head and a lane.
pub fn range_conflicts_request(head: &str, symbol: &str) -> (res: JjRequest)
    ensures
        res@ == jj::revisions_args(range_conflicts_revset(head@, symbol@)),
{
    JjRequest::revisions(cat5("conflicts() & (", head, "..", symbol, ")").as_str())
}

/// Ask where a lane forked off.
pub fn fork_request(head: &str, symbol: &str) -> (res: JjRequest)
    ensures
        res@ == jj::revisions_args(fork_revset(head@, symbol@)),
{
    JjRequest::revisions(cat5("heads(::", head, " & ::", symbol, ")").as_str())
}

/// Ask for the work of a lane that has not landed.
pub fn unlanded_request(head: &str, symbol: &str) -> (res: JjRequest)
    ensures
        res@ == jj::revisions_args(unlanded_revset(head@, symbol@)),
{
    JjRequest::revisions(cat5("(::", symbol, " ~ ::", head, ") ~ empty()").as_str())
}

/// The commit that a lane's own work starts from: where it forked off, or the
/// head where that is unknown.
pub fn scope_base(forks: &Vec<LaneRev>, head: &str) -> (res: String)
    ensures
        res@ == (if forks@.len() > 0 {
            forks@[0].commit_id@
        } else {
            head@
        }),
{
    if forks.len() > 0 {
        copy(forks[0].commit_id.as_str())
    } else {
        copy(head)
    }
}

/// The revision that a request for one revision listed.
pub fn single_revision(revset: &str, listed: Vec<LaneRev>) -> (res: Result<LaneRev>)
    ensures
        match res {
            Ok(rev) => listed@.len() > 0 && rev == listed@[0],
            Err(e) => listed@.len() == 0 && e@ == error::about2(
                ErrorKind::JjCommandFailed,
                "jj log -r "@ + revset@,
                "revision not found"@,
            ),
        },
{
    let mut listed = listed;
    if listed.len() == 0 {
        Err(
            Error::JjCommandFailed {
                command: text::cat2("jj log -r ", revset),
                stderr: copy("revision not found"),
            },
        )
    } else {
        Ok(listed.remove(0))
    }
}

/// What `jj` says of one lane.
pub struct LaneLive {
    pub workspace_exists: bool,
    pub synced: bool,
    pub ahead: usize,
    pub behind: usize,
    pub conflicts: usize,
    /// Paths changed since the lane forked off.
    pub changed: Vec<String>,
}

/// A row of the lane list says what the registry and `jj` say. Live facts are
/// reported of an open lane whose workspace exists, and of no other.
pub open spec fn entry_matches(entry: LaneListEntry, record: LaneRecord, live: LaneLive) -> bool {
    let open = record.lifecycle == LaneLifecycle::Open;
    let exists = open && live.workspace_exists;
    &&& entry.name@ == record.name@
    &&& entry.lifecycle == record.lifecycle
    &&& types::path_views(entry.paths@) == types::path_views(record.paths@)
    &&& entry.workspace_exists == exists
    &&& entry.synced == (exists && live.synced)
    &&& entry.ahead == if exists {
        live.ahead
    } else {
        0
    }
    &&& entry.behind == if exists {
        live.behind
    } else {
        0
    }
    &&& entry.conflicts == if exists {
        live.conflicts
    } else {
        0
    }
    &&& text::views(entry.unscoped@) == if exists {
        text::views(live.changed@).filter(
            lane_rules::outside(types::path_views(record.paths@)),
        )
    } else {
        Seq::empty()
    }
    &&& text::opt_view(entry.last_land) == match record.last_land {
        Some(land) => Some(land.head_commit@),
        None => None,
    }
}

fn lane_entry(record: &LaneRecord, live: &LaneLive) -> (res: LaneListEntry)
    ensures
        entry_matches(res, *record, *live),
{
    let exists = record.lifecycle == LaneLifecycle::Open && live.workspace_exists;
    let last_land = match &record.last_land {
        Some(land) => Some(copy(land.head_commit.as_str())),
        None => None,
    };
    let none: Vec<String> = Vec::new();
    proof {
        text::lemma_views_empty(none@);
    }
    LaneListEntry {
        name: record.name.clone(),
        lifecycle: record.lifecycle,
        paths: clone_paths(&record.paths),
        workspace_exists: exists,
        synced: exists && live.synced,
        ahead: if exists {
            live.ahead
        } else {
            0
        },
        behind: if exists {
            live.behind
        } else {
            0
        },
        conflicts: if exists {
            live.conflicts
        } else {
            0
        },
        unscoped: if exists {
            unscoped_paths(&live.changed, &record.paths)
        } else {
            none
        },
        last_land,
    }
}

// ---------------------------------------------------------------------------
// Garbage collection

/// A workspace that `jj` lists, and whether its directory is gone.
pub struct ListedWorkspace {
    pub name: WorkspaceName,
    pub missing: bool,
}

/// The names of listed workspaces.
pub open spec fn listed_names(listed: Seq<ListedWorkspace>) -> Seq<Seq<char>> {
    listed.map_values(|w: ListedWorkspace| w.name@)
}

/// Being a ghost: the directory is gone, and the workspace is neither trunk
/// nor the current one.
pub open spec fn is_ghost(trunk: Seq<char>, current: Seq<char>) -> spec_fn(ListedWorkspace) -> bool {
    |w: ListedWorkspace| w.missing && w.name@ != trunk && w.name@ != current
}

/// Being an orphan: open, but without a workspace.
pub open spec fn is_orphan(names: Seq<Seq<char>>) -> spec_fn(LaneRecord) -> bool {
    |r: LaneRecord| r.lifecycle == LaneLifecycle::Open && !names.contains(r.name@)
}

/// Being retired.
pub open spec fn is_retired() -> spec_fn(LaneRecord) -> bool {
    |r: LaneRecord| r.lifecycle != LaneLifecycle::Open
}

/// A plan collects what is to be collected.
pub open spec fn gc_plan_matches(
    plan: LaneGcPlan,
    records: Seq<LaneRecord>,
    listed: Seq<ListedWorkspace>,
    trunk: Seq<char>,
    current: Seq<char>,
    prune: bool,
) -> bool {
    &&& types::name_views(plan.ghost_workspaces@) == listed_names(
        listed.filter(is_ghost(trunk, current)),
    )
    &&& types::name_views(plan.orphaned_lanes@) == lane_store::record_names(
        records.filter(is_orphan(listed_names(listed))),
    )
    &&& types::name_views(plan.prunable_lanes@) == if prune {
        lane_store::record_names(records.filter(is_retired()))
    } else {
        Seq::empty()
    }
}

/// The first position from `i` on of a record of this name.
pub open spec fn view_position_from(views: Seq<RecordView>, name: Seq<char>, i: int) -> Option<int>
    decreases views.len() - i,
{
    if i < 0 || i >= views.len() {
        None
    } else if views[i].name == name {
        Some(i)
    } else {
        view_position_from(views, name, i + 1)
    }
}

proof fn lemma_position_views(records: Seq<LaneRecord>, name: Seq<char>, i: int)
    ensures
        lane_store::position_from(records, name, i) == view_position_from(
            lane_store::record_views(records),
            name,
            i,
        ),
    decreases records.len() - i,
{
    if 0 <= i < records.len() {
        lemma_position_views(records, name, i + 1);
    }
}

/// The registry after the named lanes were abandoned one after another, or
/// `None` if one of them is not registered.
pub open spec fn abandoned_views(
    views: Seq<RecordView>,
    names: Seq<Seq<char>>,
    at: Timestamp,
) -> Option<Seq<RecordView>>
    decreases names.len(),
{
    if names.len() == 0 {
        Some(views)
    } else {
        match abandoned_views(views, names.drop_last(), at) {
            None => None,
            Some(front) => match view_position_from(front, names.last(), 0) {
                None => None,
                Some(i) => Some(
                    front.update(
                        i,
                        RecordView {
                            lifecycle: LaneLifecycle::Abandoned,
                            closed_at: Some(at),
                            ..front[i]
                        },
                    ),
                ),
            },
        }
    }
}

/// Having a name that is not among these.
pub open spec fn view_kept(names: Seq<Seq<char>>) -> spec_fn(RecordView) -> bool {
    |r: RecordView| !names.contains(r.name)
}

// ---------------------------------------------------------------------------
// Retiring

/// One thing to do when a lane is closed or abandoned.
#[derive(Debug, PartialEq, Eq)]
pub enum RetireStep {
    /// Write the lane's diff to this file.
    Archive(String),
    /// Forget the workspace.
    Forget(JjRequest),
    /// Delete the workspace directory.
    DeleteDirectory,
    /// Mark the lane closed or abandoned in the registry.
    Retire,
}

/// A step without its details.
pub enum RetireStepView {
    Archive(Seq<char>),
    Forget(Seq<Seq<char>>),
    DeleteDirectory,
    Retire,
}

impl View for RetireStep {
    type V = RetireStepView;

    open spec fn view(&self) -> RetireStepView {
        match self {
            RetireStep::Archive(path) => RetireStepView::Archive(path@),
            RetireStep::Forget(request) => RetireStepView::Forget(request@),
            RetireStep::DeleteDirectory => RetireStepView::DeleteDirectory,
            RetireStep::Retire => RetireStepView::Retire,
        }
    }
}

/// The views of a list of steps.
pub open spec fn retire_views(steps: Seq<RetireStep>) -> Seq<RetireStepView> {
    steps.map_values(|s: RetireStep| s@)
}

/// What a point in time contributes to a file name.
pub open spec fn stamp_of(at: Timestamp) -> Seq<char> {
    match at.text() {
        Ok(s) => text::replace_char(s, ':', "-"@),
        Err(_) => "unknown-time"@,
    }
}

/// Where the diff of a workspace is archived.
pub open spec fn archive_file(storage: Seq<char>, name: Seq<char>, at: Timestamp) -> Seq<char> {
    config::joined_path(
        config::navi_file(storage, "archive"@),
        name + "-"@ + stamp_of(at) + ".diff"@,
    )
}

/// What removing a lane takes: its directory goes once its workspace is
/// forgotten, and the lane is retired last.
pub open spec fn removal_plan(name: Seq<char>) -> Seq<RetireStepView> {
    seq![
        RetireStepView::Forget(jj::workspace_forget_args(name)),
        RetireStepView::DeleteDirectory,
        RetireStepView::Retire,
    ]
}

/// What abandoning a lane takes: a diff that is not blank is archived before
/// anything is removed.
pub open spec fn abandon_plan(
    storage: Seq<char>,
    name: Seq<char>,
    workspace_exists: bool,
    diff: Seq<char>,
    at: Timestamp,
) -> Seq<RetireStepView> {
    let archive = if text::trim(diff).len() > 0 {
        seq![RetireStepView::Archive(archive_file(storage, name, at))]
    } else {
        Seq::empty()
    };
    if workspace_exists {
        archive + removal_plan(name)
    } else {
        seq![RetireStepView::Retire]
    }
}

// ---------------------------------------------------------------------------
// Creating the workspace of a lane

/// What is known while a lane is opened.
pub struct OpenFacts {
    /// A step failed.
    pub failed: bool,
    /// The registry with the lane in it was saved.
    pub registered: bool,
    /// The workspace was created.
    pub added: bool,
    /// The lane's files were materialized.
    pub materialized: bool,
    /// The registry without the lane was saved.
    pub rolled_back: bool,
}

/// The next step of opening a lane.
#[derive(Clone, Copy, Debug, PartialEq, Eq, Structural)]
pub enum OpenStep {
    /// Save the registry with the lane in it.
    Register,
    /// Create the workspace.
    Add,
    /// In the new workspace: show the lane's files.
    Materialize,
    /// Take the lane out of the registry again, and save it.
    RollBack,
    /// Nothing is left to do; says whether the lane is open.
    Done(bool),
}

/// The next step. The lane is registered before its workspace exists, so that
/// an interrupted opening leaves a record that garbage collection finds; where
/// the workspace cannot be created, the registration is undone.
pub open spec fn open_next(sparse: bool, facts: OpenFacts) -> OpenStep {
    if !facts.registered {
        if facts.failed {
            OpenStep::Done(false)
        } else {
            OpenStep::Register
        }
    } else if !facts.added {
        if !facts.failed {
            OpenStep::Add
        } else if !facts.rolled_back {
            OpenStep::RollBack
        } else {
            OpenStep::Done(false)
        }
    } else if sparse && !facts.materialized && !facts.failed {
        OpenStep::Materialize
    } else {
        OpenStep::Done(!facts.failed)
    }
}

/// Decide the next step of opening a lane.
pub fn open_step(sparse: bool, facts: &OpenFacts) -> (res: OpenStep)
    ensures
        res == open_next(sparse, *facts),
{
    if !facts.registered {
        if facts.failed {
            OpenStep::Done(false)
        } else {
            OpenStep::Register
        }
    } else if !facts.added {
        if !facts.failed {
            OpenStep::Add
        } else if !facts.rolled_back {
            OpenStep::RollBack
        } else {
            OpenStep::Done(false)
        }
    } else if sparse && !facts.materialized && !facts.failed {
        OpenStep::Materialize
    } else {
        OpenStep::Done(!facts.failed)
    }
}

/// A workspace is created only for a lane that is registered; an opening that
/// ends without a workspace leaves no registration behind; and one that
/// succeeds has done every step.
pub proof fn law_open_registers_first(sparse: bool, facts: OpenFacts)
    ensures
        open_next(sparse, facts) == OpenStep::Add ==> facts.registered,
        open_next(sparse, facts) is Done && facts.registered && !facts.added ==> facts.rolled_back,
        open_next(sparse, facts) == OpenStep::Done(true) ==> facts.registered && facts.added && (
        sparse ==> facts.materialized),
{
}

/// The error of a directory that could not be deleted once its workspace was
/// forgotten.
pub fn delete_failed(workspace: &WorkspaceName, path: &str, source: &str) -> (res: Error)
    ensures
        res@ == error::about3(
            ErrorKind::WorkspaceDirectoryDeleteAfterForgetFailed,
            workspace@,
            path@,
            source@,
        ),
{
    Error::WorkspaceDirectoryDeleteAfterForgetFailed {
        workspace: copy(workspace.as_str()),
        path: copy(path),
        source: copy(source),
    }
}

impl NaviWorkspace {
    /// The directory of a lane's workspace, which has to be there. `resolved`
    /// is where the workspace should be.
    pub fn existing_lane_root(
        &self,
        name: &WorkspaceName,
        workspace_exists: bool,
        resolved: &str,
        is_directory: bool,
    ) -> (res: Result<String>)
        ensures
            match res {
                Ok(root) => workspace_exists && is_directory && root@ == resolved@,
                Err(e) => !(workspace_exists && is_directory) && e@ == error::about(
                    ErrorKind::LaneWorkspaceMissing,
                    name@,
                ),
            },
    {
        if workspace_exists && is_directory {
            Ok(copy(resolved))
        } else {
            Err(Error::LaneWorkspaceMissing(copy(name.as_str())))
        }
    }

    /// The directory of the trunk workspace: the current one, or the one where
    /// it should be, which has to be there.
    pub fn trunk_root(&self, resolved: &str, is_directory: bool) -> (res: Result<String>)
        ensures
            if self.workspace_name@ == self.config.lane.trunk@ {
                res matches Ok(root) && root@ == self.workspace_root@
            } else if is_directory {
                res matches Ok(root) && root@ == resolved@
            } else {
                res matches Err(e) && e@ == error::about(
                    ErrorKind::LaneTrunkMissing,
                    self.config.lane.trunk@,
                )
            },
    {
        if self.workspace_name.same_as(&self.config.lane.trunk) {
            Ok(copy(self.workspace_root.as_str()))
        } else if is_directory {
            Ok(copy(resolved))
        } else {
            Err(Error::LaneTrunkMissing(copy(self.config.lane.trunk.as_str())))
        }
    }

    /// Show newly claimed paths in a lane's workspace; a full workspace has
    /// them already, and showing them again does no harm.
    pub fn claim_request(&self, merged: &Vec<LanePath>) -> (res: JjRequest)
        ensures
            res@ == jj::sparse_add_args(types::path_views(merged@)),
    {
        JjRequest::sparse_set(&path_texts(merged))
    }

    /// Ask for the head that lanes sync onto.
    pub fn target_request(&self) -> (res: JjRequest)
        ensures
            res@ == jj::revisions_args(target_revset(self.config)),
    {
        match &self.config.lane.target {
            Some(bookmark) => {
                let symbol = quote_revset_string(bookmark.as_str());
                JjRequest::revisions(cat3("present(", symbol.as_str(), ")").as_str())
            },
            None => {
                let symbol = workspace_revset_symbol(&self.config.lane.trunk);
                JjRequest::revisions(cat3("parents(", symbol.as_str(), ")").as_str())
            },
        }
    }

    /// The head that lanes sync onto.
    pub fn resolve_target(&self, trunk_exists: bool, heads: &Vec<LaneRev>) -> (res: Result<String>)
        ensures
            match res {
                Ok(head) => target_head(
                    self.config,
                    trunk_exists,
                    jj_output::rev_views(heads@),
                ) == Ok::<Seq<char>, error::ErrorView>(head@),
                Err(e) => target_head(
                    self.config,
                    trunk_exists,
                    jj_output::rev_views(heads@),
                ) == Err::<Seq<char>, error::ErrorView>(e@),
            },
    {
        let n: usize = heads.len();
        match &self.config.lane.target {
            Some(bookmark) => {
                if n == 0 {
                    Err(Error::LaneTargetBookmarkMissing(copy(bookmark.as_str())))
                } else if n == 1 {
                    Ok(copy(heads[0].commit_id.as_str()))
                } else {
                    Err(
                        Error::LaneTrunkNotReady {
                            trunk: copy(bookmark.as_str()),
                            reason: cat3(
                                "target bookmark points at ",
                                size_number(n).as_str(),
                                " commits; expected exactly one",
                            ),
                        },
                    )
                }
            },
            None => {
                let trunk = &self.config.lane.trunk;
                if !trunk_exists {
                    Err(Error::LaneTrunkMissing(copy(trunk.as_str())))
                } else if n == 1 {
                    Ok(copy(heads[0].commit_id.as_str()))
                } else {
                    Err(
                        Error::LaneTrunkNotReady {
                            trunk: copy(trunk.as_str()),
                            reason: cat3(
                                "trunk working copy has ",
                                size_number(n).as_str(),
                                " parents; expected exactly one",
                            ),
                        },
                    )
                }
            },
        }
    }

    /// Refuse to open a lane that cannot be opened.
    pub fn lane_open_check(
        &self,
        store: &LaneStore,
        name: &WorkspaceName,
        paths: &Vec<LanePath>,
        allow_overlap: bool,
        workspace_exists: bool,
    ) -> (res: Result<()>)
        ensures
            ({
                let refusal = open_refusal(
                    self.config,
                    store.records@,
                    name@,
                    types::path_views(paths@),
                    allow_overlap,
                    workspace_exists,
                );
                match res {
                    Ok(_) => refusal is None,
                    Err(e) => refusal == Some(e@),
                }
            }),
    {
        if name.same_as(&self.config.lane.trunk) {
            return Err(Error::LaneNameReserved(copy(name.as_str())));
        }
        if paths.len() == 0 {
            return Err(Error::InvalidLanePath(copy("(lane requires at least one --path)")));
        }
        if workspace_exists {
            return Err(Error::LaneExists(copy(name.as_str())));
        }
        if allow_overlap {
            Ok(())
        } else {
            check_overlap_excluding(store, name, paths)
        }
    }

    /// Open a lane: register its write-set, and say how to create its
    /// workspace on `base`. The lane is in the registry before its workspace
    /// exists, so that an interrupted opening leaves a record that garbage
    /// collection finds. A refusal leaves the registry as it was.
    pub fn lane_open(
        &self,
        store: &mut LaneStore,
        name: &WorkspaceName,
        paths: Vec<LanePath>,
        allow_overlap: bool,
        sparse: Option<bool>,
        workspace_exists: bool,
        base: LaneRev,
        target_root: &str,
        now: Timestamp,
    ) -> (res: Result<LaneOpenPlan>)
        ensures
            final(store).same_surroundings(*old(store)),
            ({
                let texts = types::path_views(paths@);
                let refusal = open_refusal(
                    self.config,
                    old(store).records@,
                    name@,
                    texts,
                    allow_overlap,
                    workspace_exists,
                );
                match res {
                    Err(e) => {
                        &&& final(store).records@ == old(store).records@
                        &&& match refusal {
                            Some(r) => e@ == r,
                            None => lane_is_open(old(store).records@, name@) && e@ == error::about(
                                ErrorKind::LaneExists,
                                name@,
                            ),
                        }
                    },
                    Ok(plan) => {
                        &&& refusal is None
                        &&& !lane_is_open(old(store).records@, name@)
                        &&& exists|record: LaneRecord|
                            registers(
                                old(store).records@,
                                final(store).records@,
                                record,
                            ) && record@ == (RecordView {
                                name: name@,
                                paths: texts,
                                created_at: now,
                                lifecycle: LaneLifecycle::Open,
                                closed_at: None,
                                last_land: None,
                            })
                        &&& plan_matches(
                            plan,
                            self.config,
                            name@,
                            texts,
                            sparse,
                            base@,
                            target_root@,
                        )
                    },
                }
            }),
    {
        match self.lane_open_check(store, name, &paths, allow_overlap, workspace_exists) {
            Err(e) => {
                return Err(e);
            },
            Ok(_) => {},
        }
        let record = LaneRecord {
            name: name.clone(),
            paths: clone_paths(&paths),
            created_at: now,
            lifecycle: LaneLifecycle::Open,
            closed_at: None,
            last_land: None,
        };
        let ghost before = store.records@;
        match store.insert(record) {
            Err(e) => {
                return Err(e);
            },
            Ok(_) => {},
        }
        assert(registers(before, store.records@, record));
        let is_sparse = match sparse {
            Some(value) => value,
            None => self.config.lane.sparse,
        };
        let patterns = if is_sparse {
            Some(copy("empty"))
        } else {
            Some(copy("full"))
        };
        let add = JjRequest::workspace_add(
            name,
            target_root,
            &Some(copy(base.commit_id.as_str())),
            &patterns,
        );
        let materialize = if is_sparse {
            Some(self.materialize_request(&paths))
        } else {
            None
        };
        Ok(
            LaneOpenPlan {
                add,
                materialize,
                outcome: LaneOpenOutcome {
                    name: name.clone(),
                    path: copy(target_root),
                    base,
                    paths,
                    sparse: is_sparse,
                },
            },
        )
    }

    /// Show the write-set, `.gitignore` and the context paths in a sparse lane
    /// workspace.
    fn materialize_request(&self, paths: &Vec<LanePath>) -> (res: JjRequest)
        ensures
            exists|shown: Seq<Seq<char>>| #[trigger]
                order::sorted_set_of(
                    shown,
                    sparse_paths(self.config, types::path_views(paths@)),
                ) && res@ == jj::sparse_add_args(shown),
    {
        let mut all = path_texts(paths);
        all.push(copy(".gitignore"));
        let mut context = path_texts(&self.config.lane.context_paths);
        let ghost ctx = context@;
        let ghost own = all@;
        all.append(&mut context);
        proof {
            assert(text::views(all@) =~= text::views(own) + text::views(ctx));
            assert(text::views(own) =~= types::path_views(paths@).push(".gitignore"@));
        }
        let shown = sorted_set(&all);
        assert(order::sorted_set_of(
            text::views(shown@),
            sparse_paths(self.config, types::path_views(paths@)),
        ));
        JjRequest::sparse_set(&shown)
    }

    /// Ask for the revision that a new lane is based on: the one that was
    /// asked for, or the head that lanes sync onto.
    pub fn base_request(&self, revision: &Option<String>, head: &str) -> (res: JjRequest)
        ensures
            res@ == jj::revisions_args(
                match text::opt_view(*revision) {
                    Some(r) => r,
                    None => head@,
                },
            ),
    {
        match revision {
            Some(r) => JjRequest::revisions(r.as_str()),
            None => JjRequest::revisions(head),
        }
    }

    /// Extend an open lane's write-set. A refusal leaves the registry as it
    /// was.
    pub fn lane_claim(
        &self,
        store: &mut LaneStore,
        name: &WorkspaceName,
        paths: &Vec<LanePath>,
        allow_overlap: bool,
    ) -> (res: Result<Vec<LanePath>>)
        ensures
            final(store).same_surroundings(*old(store)),
            ({
                let refusal = match lane_rules::lane_refusal(old(store).records@, name@) {
                    Some(e) => Some(e),
                    None => if allow_overlap {
                        None
                    } else {
                        lane_rules::overlap_refusal(
                            old(store).records@,
                            name@,
                            types::path_views(paths@),
                            0,
                        )
                    },
                };
                match res {
                    Err(e) => refusal == Some(e@) && final(store).records@ == old(store).records@,
                    Ok(merged) => refusal is None && (lane_store::position_of(
                        old(store).records@,
                        name@,
                    ) matches Some(i) && paths_replaced(*old(store), *final(store), i, merged@)
                        && order::sorted_set_of(
                        types::path_views(merged@),
                        old(store).records@[i]@.paths + types::path_views(paths@),
                    )),
                }
            }),
    {
        let current = match require_open_lane(store, name) {
            Err(e) => {
                return Err(e);
            },
            Ok(record) => clone_paths(&record.paths),
        };
        if !allow_overlap {
            match check_overlap_excluding(store, name, paths) {
                Err(e) => {
                    return Err(e);
                },
                Ok(_) => {},
            }
        }
        let merged = merged_paths(&current, paths);
        match store.replace_paths(name, clone_paths(&merged)) {
            Err(e) => Err(e),
            Ok(_) => Ok(merged),
        }
    }

    /// Shrink an open lane's write-set. Emptying it is refused, and a refusal
    /// leaves the registry as it was.
    pub fn lane_release(
        &self,
        store: &mut LaneStore,
        name: &WorkspaceName,
        paths: &Vec<LanePath>,
    ) -> (res: Result<Vec<LanePath>>)
        ensures
            final(store).same_surroundings(*old(store)),
            match lane_rules::lane_refusal(old(store).records@, name@) {
                Some(refusal) => final(store).records@ == old(store).records@ && (res matches Err(
                    e,
                ) && e@ == refusal),
                None => lane_store::position_of(old(store).records@, name@) matches Some(i) && ({
                    let left = old(store).records@[i]@.paths.filter(
                        lane_rules::not_among(types::path_views(paths@)),
                    );
                    match res {
                        Err(e) => left.len() == 0 && final(store).records@ == old(store).records@
                            && e@ == error::about(ErrorKind::LaneReleaseWouldEmpty, name@),
                        Ok(remaining) => left.len() > 0 && types::path_views(remaining@) == left
                            && paths_replaced(*old(store), *final(store), i, remaining@),
                    }
                }),
            },
    {
        let current = match require_open_lane(store, name) {
            Err(e) => {
                return Err(e);
            },
            Ok(record) => clone_paths(&record.paths),
        };
        let remaining = remaining_paths(&current, paths);
        assert(types::path_views(remaining@).len() == remaining@.len());
        if remaining.len() == 0 {
            return Err(Error::LaneReleaseWouldEmpty(copy(name.as_str())));
        }
        match store.replace_paths(name, clone_paths(&remaining)) {
            Err(e) => Err(e),
            Ok(_) => Ok(remaining),
        }
    }

    /// Report every registered lane with what `jj` says of it.
    pub fn lane_list(&self, store: &LaneStore, live: &Vec<LaneLive>) -> (res: Vec<LaneListEntry>)
        requires
            live@.len() == store.records@.len(),
        ensures
            res@.len() == store.records@.len(),
            forall|i: int|
                0 <= i < res@.len() ==> entry_matches(
                    #[trigger] res@[i],
                    store.records@[i],
                    live@[i],
                ),
    {
        let mut out: Vec<LaneListEntry> = Vec::new();
        let mut i: usize = 0;
        while i < store.records.len()
            invariant
                i <= store.records@.len(),
                live@.len() == store.records@.len(),
                out@.len() == i,
                forall|k: int|
                    0 <= k < i ==> entry_matches(
                        #[trigger] out@[k],
                        store.records@[k],
                        live@[k],
                    ),
            decreases store.records@.len() - i,
        {
            out.push(lane_entry(&store.records[i], &live[i]));
            i = i + 1;
        }
        out
    }

    /// The lanes to sync: the named one, which has to be open, or all that are
    /// open.
    pub fn lane_sync<'a>(&self, store: &'a LaneStore, name: Option<&WorkspaceName>) -> (res: Result<
        Vec<&'a LaneRecord>,
    >)
        ensures
            match name {
                None => res matches Ok(lanes) && lanes@.map_values(|r: &LaneRecord| *r)
                    == store.records@.filter(lane_store::is_open()),
                Some(name) => match res {
                    Err(e) => lane_rules::lane_refusal(store.records@, name@) == Some(e@),
                    Ok(lanes) => lane_rules::lane_refusal(store.records@, name@) is None
                        && lanes@.len() == 1 && (lane_store::position_of(
                        store.records@,
                        name@,
                    ) matches Some(i) && *lanes@[0] == store.records@[i]),
                },
            },
    {
        match name {
            None => Ok(store.open_lanes()),
            Some(name) => match require_open_lane(store, name) {
                Err(e) => Err(e),
                Ok(record) => {
                    let mut lanes: Vec<&LaneRecord> = Vec::new();
                    lanes.push(record);
                    Ok(lanes)
                },
            },
        }
    }

    /// Decide whether a lane may be closed, and how, in the order in which it
    /// is to be done. Work that has not landed keeps it open.
    pub fn lane_close(&self, store: &LaneStore, name: &WorkspaceName, unlanded: usize) -> (res:
        Result<Vec<RetireStep>>)
        ensures
            match lane_rules::lane_refusal(store.records@, name@) {
                Some(refusal) => res matches Err(e) && e@ == refusal,
                None => if unlanded > 0 {
                    res matches Err(e) && e@ == error::about(ErrorKind::LaneNotLanded, name@)
                } else {
                    res matches Ok(steps) && retire_views(steps@) == removal_plan(name@)
                },
            },
    {
        match require_open_lane(store, name) {
            Err(e) => Err(e),
            Ok(_) => {
                if unlanded > 0 {
                    return Err(Error::LaneNotLanded { lane: copy(name.as_str()) });
                }
                let steps: Vec<RetireStep> = vec![
                    RetireStep::Forget(JjRequest::workspace_forget(name.as_str())),
                    RetireStep::DeleteDirectory,
                    RetireStep::Retire,
                ];
                assert(retire_views(steps@) =~= removal_plan(name@));
                Ok(steps)
            },
        }
    }

    /// Where the diff of a workspace is archived.
    pub fn archive_path(&self, name: &WorkspaceName, now: Timestamp) -> (res: String)
        ensures
            res@ == archive_file(self.repo_storage_path@, name@, now),
    {
        let dir = archive_dir_path(self.repo_storage_path.as_str());
        let stamp = match now.format() {
            Ok(s) => replaced(s.as_str(), ':', "-"),
            Err(_) => copy("unknown-time"),
        };
        let file = cat4(name.as_str(), "-", stamp.as_str(), ".diff");
        path_join(dir.as_str(), file.as_str())
    }

    /// Decide how a lane is abandoned, in the order in which it is to be done.
    pub fn lane_abandon(
        &self,
        store: &LaneStore,
        name: &WorkspaceName,
        workspace_exists: bool,
        diff: &str,
        now: Timestamp,
    ) -> (res: Result<Vec<RetireStep>>)
        ensures
            match lane_rules::lane_refusal(store.records@, name@) {
                Some(refusal) => res matches Err(e) && e@ == refusal,
                None => res matches Ok(steps) && retire_views(steps@) == abandon_plan(
                    self.repo_storage_path@,
                    name@,
                    workspace_exists,
                    diff@,
                    now,
                ),
            },
    {
        match require_open_lane(store, name) {
            Err(e) => {
                return Err(e);
            },
            Ok(_) => {},
        }
        let mut steps: Vec<RetireStep> = Vec::new();
        if workspace_exists {
            let body = trimmed(diff);
            if text::char_count(body.as_str()) > 0 {
                steps.push(RetireStep::Archive(self.archive_path(name, now)));
            }
            steps.push(RetireStep::Forget(JjRequest::workspace_forget(name.as_str())));
            steps.push(RetireStep::DeleteDirectory);
        }
        steps.push(RetireStep::Retire);
        proof {
            assert(retire_views(steps@) =~= abandon_plan(
                self.repo_storage_path@,
                name@,
                workspace_exists,
                diff@,
                now,
            ));
        }
        Ok(steps)
    }

    /// Plan garbage collection: ghost workspaces, orphaned open lanes and, on
    /// request, retired records.
    pub fn lane_gc_plan(
        &self,
        store: &LaneStore,
        listed: &Vec<ListedWorkspace>,
        prune: bool,
    ) -> (res: LaneGcPlan)
        ensures
            gc_plan_matches(
                res,
                store.records@,
                listed@,
                self.config.lane.trunk@,
                self.workspace_name@,
                prune,
            ),
    {
        let ghosts = self.ghosts(listed);
        let orphans = orphans(store, listed);
        let retired = if prune {
            retired_names(store)
        } else {
            let none: Vec<WorkspaceName> = Vec::new();
            assert(types::name_views(none@) =~= Seq::<Seq<char>>::empty());
            none
        };
        LaneGcPlan { ghost_workspaces: ghosts, orphaned_lanes: orphans, prunable_lanes: retired }
    }

    fn ghosts(&self, listed: &Vec<ListedWorkspace>) -> (res: Vec<WorkspaceName>)
        ensures
            types::name_views(res@) == listed_names(
                listed@.filter(is_ghost(self.config.lane.trunk@, self.workspace_name@)),
            ),
    {
        let ghost keep = is_ghost(self.config.lane.trunk@, self.workspace_name@);
        let mut out: Vec<WorkspaceName> = Vec::new();
        let mut i: usize = 0;
        proof {
            reveal(Seq::filter);
            assert(listed_names(listed@.take(0).filter(keep)) =~= types::name_views(out@));
        }
        while i < listed.len()
            invariant
                i <= listed@.len(),
                keep == is_ghost(self.config.lane.trunk@, self.workspace_name@),
                types::name_views(out@) == listed_names(listed@.take(i as int).filter(keep)),
            decreases listed@.len() - i,
        {
            let entry = &listed[i];
            let ghost before = out@;
            let ghost kept = listed@.take(i as int).filter(keep);
            proof {
                reveal(Seq::filter);
                assert(listed@.take(i + 1).drop_last() == listed@.take(i as int));
            }
            if entry.missing && !entry.name.same_as(&self.config.lane.trunk)
                && !entry.name.same_as(&self.workspace_name) {
                out.push(entry.name.clone());
                assert(types::name_views(out@) =~= types::name_views(before).push(entry.name@));
                assert(listed_names(kept.push(*entry)) =~= listed_names(kept).push(entry.name@));
            }
            i = i + 1;
        }
        assert(listed@.take(i as int) == listed@);
        out
    }

    /// The requests that forget the ghosts of a plan.
    pub fn gc_requests(&self, plan: &LaneGcPlan) -> (res: Vec<JjRequest>)
        ensures
            res@.len() == plan.ghost_workspaces@.len(),
            forall|i: int|
                0 <= i < res@.len() ==> (#[trigger] res@[i])@ == jj::workspace_forget_args(
                    plan.ghost_workspaces@[i]@,
                ),
    {
        let mut out: Vec<JjRequest> = Vec::new();
        let mut i: usize = 0;
        while i < plan.ghost_workspaces.len()
            invariant
                i <= plan.ghost_workspaces@.len(),
                out@.len() == i,
                forall|k: int|
                    0 <= k < i ==> (#[trigger] out@[k])@ == jj::workspace_forget_args(
                        plan.ghost_workspaces@[k]@,
                    ),
            decreases plan.ghost_workspaces@.len() - i,
        {
            out.push(JjRequest::workspace_forget(plan.ghost_workspaces[i].as_str()));
            i = i + 1;
        }
        out
    }

    /// Apply a plan to the registry: orphaned lanes are marked abandoned, and
    /// prunable records dropped. A lane that is not registered is an error, at
    /// which the lanes before it are already marked and nothing is dropped.
    pub fn lane_gc_apply(&self, store: &mut LaneStore, plan: &LaneGcPlan, now: Timestamp) -> (res:
        Result<()>)
        ensures
            final(store).same_surroundings(*old(store)),
            ({
                let retired = abandoned_views(
                    lane_store::record_views(old(store).records@),
                    types::name_views(plan.orphaned_lanes@),
                    now,
                );
                match res {
                    Ok(_) => retired matches Some(views) && lane_store::record_views(
                        final(store).records@,
                    ) == views.filter(view_kept(types::name_views(plan.prunable_lanes@))),
                    Err(e) => retired is None && exists|k: int|
                        0 <= k < plan.orphaned_lanes@.len() && e@ == error::about(
                            ErrorKind::LaneNotFound,
                            (#[trigger] plan.orphaned_lanes@[k])@,
                        ) && abandoned_views(
                            lane_store::record_views(old(store).records@),
                            types::name_views(plan.orphaned_lanes@).take(k),
                            now,
                        ) == Some(lane_store::record_views(final(store).records@)),
                }
            }),
    {
        let ghost views = lane_store::record_views(store.records@);
        let ghost orphans = types::name_views(plan.orphaned_lanes@);
        let mut i: usize = 0;
        assert(orphans.take(0) =~= Seq::<Seq<char>>::empty());
        while i < plan.orphaned_lanes.len()
            invariant
                i <= plan.orphaned_lanes@.len(),
                orphans == types::name_views(plan.orphaned_lanes@),
                views == lane_store::record_views(old(store).records@),
                store.same_surroundings(*old(store)),
                abandoned_views(views, orphans.take(i as int), now) == Some(
                    lane_store::record_views(store.records@),
                ),
            decreases plan.orphaned_lanes@.len() - i,
        {
            let name = &plan.orphaned_lanes[i];
            proof {
                assert(orphans.take(i + 1).drop_last() == orphans.take(i as int));
                assert(orphans.take(i + 1).last() == name@);
                lemma_position_views(store.records@, name@, 0);
                lane_store::lemma_position_in_range(store.records@, name@, 0);
            }
            let ghost before = store.records@;
            match store.set_lifecycle(name, LaneLifecycle::Abandoned, now) {
                Err(e) => {
                    proof {
                        assert(orphans[i as int] == name@);
                        lemma_abandoned_missing(views, orphans, now, i + 1);
                    }
                    return Err(e);
                },
                Ok(_) => {},
            }
            proof {
                let p = lane_store::position_of(before, name@)->0;
                assert(lane_store::record_views(before)[p] == before[p]@);
            }
            i = i + 1;
        }
        assert(orphans.take(i as int) =~= orphans);
        let ghost retired = lane_store::record_views(store.records@);
        let ghost gone = types::name_views(plan.prunable_lanes@);
        let mut j: usize = 0;
        proof {
            assert(gone.take(0) =~= Seq::<Seq<char>>::empty());
            lemma_filter_all(retired, view_kept(gone.take(0)));
        }
        while j < plan.prunable_lanes.len()
            invariant
                j <= plan.prunable_lanes@.len(),
                gone == types::name_views(plan.prunable_lanes@),
                orphans == types::name_views(plan.orphaned_lanes@),
                views == lane_store::record_views(old(store).records@),
                store.same_surroundings(*old(store)),
                abandoned_views(views, orphans, now) == Some(retired),
                lane_store::record_views(store.records@) == retired.filter(
                    view_kept(gone.take(j as int)),
                ),
            decreases plan.prunable_lanes@.len() - j,
        {
            let name = &plan.prunable_lanes[j];
            let ghost before = store.records@;
            store.remove(name);
            proof {
                assert(gone[j as int] == name@);
                lemma_remove_views(before, name@);
                lemma_filter_twice(retired, gone, j as int);
            }
            j = j + 1;
        }
        assert(gone.take(j as int) =~= gone);
        Ok(())
    }
}

/// A registry took up a record.
pub open spec fn registers(
    before: Seq<LaneRecord>,
    after: Seq<LaneRecord>,
    record: LaneRecord,
) -> bool {
    let items = before.filter(lane_store::named_otherwise(record.name@)).push(record);
    order::sorted_rising(after, items, lane_store::record_names(items))
}

/// A registry has another write-set for the lane at position `i`, and nothing
/// else changed.
pub open spec fn paths_replaced(
    before: LaneStore,
    after: LaneStore,
    i: int,
    paths: Seq<LanePath>,
) -> bool {
    lane_store::record_views(after.records@) == lane_store::record_views(before.records@).update(
        i,
        RecordView { paths: types::path_views(paths), ..before.records@[i]@ },
    )
}

/// A plan for opening a lane says what it should.
pub open spec fn plan_matches(
    plan: LaneOpenPlan,
    config: RepoConfig,
    name: Seq<char>,
    paths: Seq<Seq<char>>,
    sparse: Option<bool>,
    base: RevView,
    target_root: Seq<char>,
) -> bool {
    let is_sparse = match sparse {
        Some(value) => value,
        None => config.lane.sparse,
    };
    &&& plan.add@ == jj::workspace_add_args(
        name,
        target_root,
        Some(base.commit_id),
        Some(
            if is_sparse {
                "empty"@
            } else {
                "full"@
            },
        ),
    )
    &&& match plan.materialize {
        None => !is_sparse,
        Some(request) => is_sparse && exists|shown: Seq<Seq<char>>| #[trigger]
            order::sorted_set_of(shown, sparse_paths(config, paths)) && request@
                == jj::sparse_add_args(shown),
    }
    &&& plan.outcome.name@ == name
    &&& plan.outcome.path@ == target_root
    &&& plan.outcome.base@ == base
    &&& types::path_views(plan.outcome.paths@) == paths
    &&& plan.outcome.sparse == is_sparse
}

fn has_listed(listed: &Vec<ListedWorkspace>, name: &WorkspaceName) -> (res: bool)
    ensures
        res == listed_names(listed@).contains(name@),
{
    let ghost names = listed_names(listed@);
    let mut i: usize = 0;
    while i < listed.len()
        invariant
            i <= listed@.len(),
            names == listed_names(listed@),
            forall|k: int| 0 <= k < i ==> #[trigger] names[k] != name@,
        decreases listed@.len() - i,
    {
        assert(names[i as int] == listed@[i as int].name@);
        if listed[i].name.same_as(name) {
            return true;
        }
        i = i + 1;
    }
    false
}

fn orphans(store: &LaneStore, listed: &Vec<ListedWorkspace>) -> (res: Vec<WorkspaceName>)
    ensures
        types::name_views(res@) == lane_store::record_names(
            store.records@.filter(is_orphan(listed_names(listed@))),
        ),
{
    let ghost keep = is_orphan(listed_names(listed@));
    let mut out: Vec<WorkspaceName> = Vec::new();
    let mut i: usize = 0;
    proof {
        reveal(Seq::filter);
        assert(lane_store::record_names(store.records@.take(0).filter(keep)) =~= types::name_views(
            out@,
        ));
    }
    while i < store.records.len()
        invariant
            i <= store.records@.len(),
            keep == is_orphan(listed_names(listed@)),
            types::name_views(out@) == lane_store::record_names(
                store.records@.take(i as int).filter(keep),
            ),
        decreases store.records@.len() - i,
    {
        let record = &store.records[i];
        let ghost before = out@;
        let ghost kept = store.records@.take(i as int).filter(keep);
        proof {
            reveal(Seq::filter);
            assert(store.records@.take(i + 1).drop_last() == store.records@.take(i as int));
        }
        if record.lifecycle == LaneLifecycle::Open && !has_listed(listed, &record.name) {
            out.push(record.name.clone());
            proof {
                assert(types::name_views(out@) =~= types::name_views(before).push(record.name@));
                assert(lane_store::record_names(kept.push(*record)) =~= lane_store::record_names(
                    kept,
                ).push(record.name@));
            }
        }
        i = i + 1;
    }
    assert(store.records@.take(i as int) == store.records@);
    out
}

fn retired_names(store: &LaneStore) -> (res: Vec<WorkspaceName>)
    ensures
        types::name_views(res@) == lane_store::record_names(store.records@.filter(is_retired())),
{
    let ghost keep = is_retired();
    let mut out: Vec<WorkspaceName> = Vec::new();
    let mut i: usize = 0;
    proof {
        reveal(Seq::filter);
        assert(lane_store::record_names(store.records@.take(0).filter(keep)) =~= types::name_views(
            out@,
        ));
    }
    while i < store.records.len()
        invariant
            i <= store.records@.len(),
            keep == is_retired(),
            types::name_views(out@) == lane_store::record_names(
                store.records@.take(i as int).filter(keep),
            ),
        decreases store.records@.len() - i,
    {
        let record = &store.records[i];
        let ghost before = out@;
        let ghost kept = store.records@.take(i as int).filter(keep);
        proof {
            reveal(Seq::filter);
            assert(store.records@.take(i + 1).drop_last() == store.records@.take(i as int));
        }
        if record.lifecycle != LaneLifecycle::Open {
            out.push(record.name.clone());
            proof {
                assert(types::name_views(out@) =~= types::name_views(before).push(record.name@));
                assert(lane_store::record_names(kept.push(*record)) =~= lane_store::record_names(
                    kept,
                ).push(record.name@));
            }
        }
        i = i + 1;
    }
    assert(store.records@.take(i as int) == store.records@);
    out
}

proof fn lemma_abandoned_missing(
    views: Seq<RecordView>,
    names: Seq<Seq<char>>,
    at: Timestamp,
    n: int,
)
    requires
        0 <= n <= names.len(),
        abandoned_views(views, names.take(n), at) is None,
    ensures
        abandoned_views(views, names, at) is None,
    decreases names.len(),
{
    if n < names.len() {
        assert(names.drop_last().take(n) == names.take(n));
        lemma_abandoned_missing(views, names.drop_last(), at, n);
    } else {
        assert(names.take(n) == names);
    }
}

proof fn lemma_filter_all<A>(s: Seq<A>, keep: spec_fn(A) -> bool)
    requires
        forall|i: int| 0 <= i < s.len() ==> keep(#[trigger] s[i]),
    ensures
        s.filter(keep) == s,
    decreases s.len(),
{
    reveal(Seq::filter);
    if s.len() > 0 {
        lemma_filter_all(s.drop_last(), keep);
        assert(s.drop_last().push(s.last()) =~= s);
    }
}

/// Dropping the records of a name and then looking at their views is the same
/// as looking first.
proof fn lemma_remove_views(records: Seq<LaneRecord>, name: Seq<char>)
    ensures
        lane_store::record_views(records.filter(lane_store::named_otherwise(name)))
            == lane_store::record_views(records).filter(view_kept(seq![name])),
    decreases records.len(),
{
    reveal(Seq::filter);
    let keep = lane_store::named_otherwise(name);
    let kept = view_kept(seq![name]);
    if records.len() > 0 {
        let front = records.drop_last();
        lemma_remove_views(front, name);
        assert(lane_store::record_views(records).drop_last() =~= lane_store::record_views(front));
        assert(lane_store::record_views(records).last() == records.last()@);
        assert(seq![name].contains(records.last().name@) <==> records.last().name@ == name) by {
            assert(seq![name][0] == name);
        }
        assert(lane_store::record_views(front.filter(keep).push(records.last()))
            =~= lane_store::record_views(front.filter(keep)).push(records.last()@));
    } else {
        assert(lane_store::record_views(records) =~= Seq::<RecordView>::empty());
        assert(lane_store::record_views(records.filter(keep)) =~= Seq::<RecordView>::empty());
    }
}

/// Dropping one more name after the first ones.
proof fn lemma_filter_twice(views: Seq<RecordView>, names: Seq<Seq<char>>, j: int)
    requires
        0 <= j < names.len(),
    ensures
        views.filter(view_kept(names.take(j))).filter(view_kept(seq![names[j]])) == views.filter(
            view_kept(names.take(j + 1)),
        ),
    decreases views.len(),
{
    reveal(Seq::filter);
    if views.len() > 0 {
        let front = views.drop_last();
        lemma_filter_twice(front, names, j);
        let last = views.last();
        let first = front.filter(view_kept(names.take(j)));
        assert(names.take(j + 1) =~= names.take(j).push(names[j]));
        assert(names.take(j + 1).contains(last.name) <==> names.take(j).contains(last.name)
            || last.name == names[j]) by {
            if names.take(j).contains(last.name) {
                let k = choose|k: int| 0 <= k < j && names.take(j)[k] == last.name;
                assert(names.take(j + 1)[k] == last.name);
            }
            if last.name == names[j] {
                assert(names.take(j + 1)[j] == last.name);
            }
            if names.take(j + 1).contains(last.name) {
                let k = choose|k: int| 0 <= k < j + 1 && #[trigger] names.take(j + 1)[k] == last.name;
                if k < j {
                    assert(names.take(j)[k] == last.name);
                }
            }
        }
        assert(seq![names[j]].contains(last.name) <==> last.name == names[j]) by {
            assert(seq![names[j]][0] == names[j]);
        }
        assert(first.push(last).drop_last() =~= first);
    }
}

/// An archive is written before anything of the lane is removed, and the lane
/// is retired last.
pub proof fn law_abandon_archives_first(
    storage: Seq<char>,
    name: Seq<char>,
    workspace_exists: bool,
    diff: Seq<char>,
    at: Timestamp,
)
    ensures
        ({
            let plan = abandon_plan(storage, name, workspace_exists, diff, at);
            &&& workspace_exists && text::trim(diff).len() > 0 ==> plan[0]
                == RetireStepView::Archive(archive_file(storage, name, at))
            &&& forall|i: int|
                1 <= i < plan.len() ==> !(#[trigger] plan[i] is Archive)
            &&& plan.last() == RetireStepView::Retire
        }),
{
}

/// A workspace that may be forgotten: neither trunk nor the current one, and
/// its directory is gone.
pub open spec fn may_be_forgotten(
    name: Seq<char>,
    listed: Seq<ListedWorkspace>,
    trunk: Seq<char>,
    current: Seq<char>,
) -> bool {
    &&& name != trunk
    &&& name != current
    &&& exists|w: ListedWorkspace| #[trigger]
        listed.contains(w) && w.missing && w.name@ == name
}

/// A lane that may be given up: open, and without a workspace.
pub open spec fn may_be_given_up(
    name: Seq<char>,
    records: Seq<LaneRecord>,
    listed: Seq<ListedWorkspace>,
) -> bool {
    &&& !listed_names(listed).contains(name)
    &&& exists|r: LaneRecord| #[trigger]
        records.contains(r) && r.lifecycle == LaneLifecycle::Open && r.name@ == name
}

/// A record that may be dropped: its lane is retired.
pub open spec fn may_be_dropped(name: Seq<char>, records: Seq<LaneRecord>) -> bool {
    exists|r: LaneRecord| #[trigger]
        records.contains(r) && r.lifecycle != LaneLifecycle::Open && r.name@ == name
}

/// Garbage collection is safe: it never forgets the trunk, the current
/// workspace or a workspace whose directory is there, never gives up a lane
/// that has a workspace or is retired already, and drops records of retired
/// lanes only, and only on request.
pub proof fn law_gc_is_safe(
    plan: LaneGcPlan,
    records: Seq<LaneRecord>,
    listed: Seq<ListedWorkspace>,
    trunk: Seq<char>,
    current: Seq<char>,
    prune: bool,
)
    requires
        gc_plan_matches(plan, records, listed, trunk, current, prune),
    ensures
        forall|i: int|
            0 <= i < plan.ghost_workspaces@.len() ==> may_be_forgotten(
                (#[trigger] plan.ghost_workspaces@[i])@,
                listed,
                trunk,
                current,
            ),
        forall|i: int|
            0 <= i < plan.orphaned_lanes@.len() ==> may_be_given_up(
                (#[trigger] plan.orphaned_lanes@[i])@,
                records,
                listed,
            ),
        forall|i: int|
            0 <= i < plan.prunable_lanes@.len() ==> may_be_dropped(
                (#[trigger] plan.prunable_lanes@[i])@,
                records,
            ),
        !prune ==> plan.prunable_lanes@.len() == 0,
{
    let ghosts = listed.filter(is_ghost(trunk, current));
    assert(listed_names(ghosts).len() == ghosts.len());
    assert(types::name_views(plan.ghost_workspaces@).len() == plan.ghost_workspaces@.len());
    assert forall|i: int| 0 <= i < plan.ghost_workspaces@.len() implies may_be_forgotten(
        (#[trigger] plan.ghost_workspaces@[i])@,
        listed,
        trunk,
        current,
    ) by {
        assert(types::name_views(plan.ghost_workspaces@)[i] == listed_names(ghosts)[i]);
        listed.lemma_filter_pred(is_ghost(trunk, current), i);
        assert(ghosts.contains(ghosts[i]));
        listed.lemma_filter_contains_rev(is_ghost(trunk, current), ghosts[i]);
    }
    let orphans = records.filter(is_orphan(listed_names(listed)));
    assert(lane_store::record_names(orphans).len() == orphans.len());
    assert(types::name_views(plan.orphaned_lanes@).len() == plan.orphaned_lanes@.len());
    assert forall|i: int| 0 <= i < plan.orphaned_lanes@.len() implies may_be_given_up(
        (#[trigger] plan.orphaned_lanes@[i])@,
        records,
        listed,
    ) by {
        assert(types::name_views(plan.orphaned_lanes@)[i] == lane_store::record_names(orphans)[i]);
        records.lemma_filter_pred(is_orphan(listed_names(listed)), i);
        assert(orphans.contains(orphans[i]));
        records.lemma_filter_contains_rev(is_orphan(listed_names(listed)), orphans[i]);
    }
    let retired = records.filter(is_retired());
    assert(lane_store::record_names(retired).len() == retired.len());
    assert(types::name_views(plan.prunable_lanes@).len() == plan.prunable_lanes@.len());
    assert forall|i: int| 0 <= i < plan.prunable_lanes@.len() implies may_be_dropped(
        (#[trigger] plan.prunable_lanes@[i])@,
        records,
    ) by {
        assert(types::name_views(plan.prunable_lanes@)[i] == lane_store::record_names(retired)[i]);
        records.lemma_filter_pred(is_retired(), i);
        assert(retired.contains(retired[i]));
        records.lemma_filter_contains_rev(is_retired(), retired[i]);
    }
}

/// Claiming paths that were not refused keeps the open lanes apart.
pub proof fn law_claim_keeps_lanes_disjoint(
    before: LaneStore,
    after: LaneStore,
    name: Seq<char>,
    i: int,
    paths: Seq<Seq<char>>,
    merged: Seq<LanePath>,
)
    requires
        lane_rules::lanes_disjoint(before.records@),
        lane_rules::overlap_refusal(before.records@, name, paths, 0) is None,
        lane_store::position_of(before.records@, name) == Some(i),
        before.records@[i].lifecycle == LaneLifecycle::Open,
        paths_replaced(before, after, i, merged),
        order::sorted_set_of(types::path_views(merged), before.records@[i]@.paths + paths),
        forall|k: int| 0 <= k < paths.len() ==> types::is_lane_path(#[trigger] paths[k]),
        forall|k: int|
            0 <= k < merged.len() ==> types::is_lane_path(
                #[trigger] types::path_views(merged)[k],
            ),
    ensures
        lane_rules::lanes_disjoint(after.records@),
{
    let old_records = before.records@;
    let new_records = after.records@;
    let new_views = lane_store::record_views(new_records);
    let all = types::path_views(merged);
    lane_store::lemma_position_in_range(old_records, name, 0);
    lane_rules::law_overlap_refused_exactly(old_records, name, paths, 0);
    assert(new_views.len() == old_records.len());
    assert forall|k: int| 0 <= k < new_records.len() implies (#[trigger] new_records[k]).name@
        == old_records[k].name@ && new_records[k].lifecycle == old_records[k].lifecycle
        && new_records[k]@.paths == (if k == i {
        all
    } else {
        old_records[k]@.paths
    }) by {
        assert(new_views[k] == new_records[k]@);
        assert(lane_store::record_views(old_records)[k] == old_records[k]@);
    }
    let mine = old_records[i]@.paths;
    assert forall|k: int|
        0 <= k < old_records.len() && (#[trigger] old_records[k]).lifecycle == LaneLifecycle::Open
            && old_records[k].name@ != name implies lane_rules::disjoint_sets(
        old_records[k]@.paths,
        all,
    ) by {
        let theirs = old_records[k]@.paths;
        assert(old_records.contains(old_records[k]) && old_records.contains(old_records[i]));
        assert(lane_rules::disjoint_sets(theirs, mine));
        assert(lane_rules::disjoint_sets(theirs, paths));
        assert forall|a: int, b: int| 0 <= a < theirs.len() && 0 <= b < all.len() implies
            !types::overlap(#[trigger] theirs[a], #[trigger] all[b]) by {
            assert(all.contains(all[b]));
            assert((mine + paths).contains(all[b]));
            let c = choose|c: int| 0 <= c < (mine + paths).len() && (mine + paths)[c] == all[b];
            if c < mine.len() {
                assert(!types::overlap(theirs[a], mine[c]));
            } else {
                assert(!types::overlap(theirs[a], paths[c - mine.len()]));
            }
        }
    }
    assert forall|r: LaneRecord, s: LaneRecord|
        #[trigger] new_records.contains(r) && #[trigger] new_records.contains(s) && r.lifecycle
            == LaneLifecycle::Open && s.lifecycle == LaneLifecycle::Open && r.name@
            != s.name@ implies lane_rules::disjoint_sets(r@.paths, s@.paths) by {
        let a = choose|a: int| 0 <= a < new_records.len() && new_records[a] == r;
        let b = choose|b: int| 0 <= b < new_records.len() && new_records[b] == s;
        assert(old_records.contains(old_records[a]) && old_records.contains(old_records[b]));
        if b == i {
            assert(old_records[a].name@ != name);
        } else if a == i {
            lane_rules::lemma_disjoint_symmetric(old_records[b]@.paths, all);
        }
    }
}

// ---------------------------------------------------------------------------
// What lanes are opened, listed and collected by

/// The landing target has one head or none: a head is found exactly where the
/// lookup selected one commit and, where lanes land into a workspace, that
/// workspace exists; then it is that commit. What is wrong is said of the
/// bookmark or the workspace that is the target.
pub proof fn law_target_has_one_head(config: RepoConfig, trunk_exists: bool, heads: Seq<RevView>)
    ensures
        target_head(config, trunk_exists, heads) matches Ok(head) ==> heads.len() == 1 && head
            == heads[0].commit_id && (config.lane.target is Some || trunk_exists),
        target_head(config, trunk_exists, heads) is Ok <==> heads.len() == 1 && (
        config.lane.target is Some || trunk_exists),
        target_head(config, trunk_exists, heads) matches Err(e) ==> e.args.len() > 0
            && match config.lane.target {
            Some(bookmark) => e.args[0] == bookmark@ && e.kind == (if heads.len() == 0 {
                ErrorKind::LaneTargetBookmarkMissing
            } else {
                ErrorKind::LaneTrunkNotReady
            }),
            None => e.args[0] == config.lane.trunk@ && e.kind == (if !trunk_exists {
                ErrorKind::LaneTrunkMissing
            } else {
                ErrorKind::LaneTrunkNotReady
            }),
        },
{
}

/// The questions about a lane, as jj reads them: ahead is what the lane has and
/// the head has not, behind what the head has and the lane has not; neither
/// counts what is empty on the lane's side.
pub proof fn law_questions_about_a_lane(head: Seq<char>, lane: Seq<char>)
    ensures
        ahead_revset(head, lane) == "("@ + head + ".."@ + lane + ") ~ empty()"@,
        behind_revset(head, lane) == "::"@ + head + " ~ ::"@ + lane,
        lane_conflicts_revset(head, lane) == "conflicts() & (::"@ + lane + " ~ ::"@ + head + ")"@,
        range_conflicts_revset(head, lane) == "conflicts() & ("@ + head + ".."@ + lane + ")"@,
        fork_revset(head, lane) == "heads(::"@ + head + " & ::"@ + lane + ")"@,
        unlanded_revset(head, lane) == "(::"@ + lane + " ~ ::"@ + head + ") ~ empty()"@,
{
}

/// A lane is opened unless something stands against it: the trunk's name, no
/// paths, a workspace of the name, or, unless that is allowed, a path that
/// overlaps another open lane; and the refusal says which, in this order.
pub proof fn law_open_is_refused_exactly(
    config: RepoConfig,
    records: Seq<LaneRecord>,
    name: Seq<char>,
    paths: Seq<Seq<char>>,
    allow_overlap: bool,
    workspace_exists: bool,
)
    ensures
        ({
            let refusal = open_refusal(
                config,
                records,
                name,
                paths,
                allow_overlap,
                workspace_exists,
            );
            &&& refusal is None <==> name != config.lane.trunk@ && paths.len() > 0
                && !workspace_exists && (allow_overlap || forall|k: int|
                0 <= k < records.len() && (#[trigger] records[k]).lifecycle == LaneLifecycle::Open
                    && records[k].name@ != name ==> lane_rules::disjoint_sets(
                    records[k]@.paths,
                    paths,
                ))
            &&& refusal matches Some(e) ==> e.kind == (if name == config.lane.trunk@ {
                ErrorKind::LaneNameReserved
            } else if paths.len() == 0 {
                ErrorKind::InvalidLanePath
            } else if workspace_exists {
                ErrorKind::LaneExists
            } else {
                ErrorKind::LaneOverlap
            })
            &&& refusal matches Some(e) ==> (e.kind == ErrorKind::LaneNameReserved || e.kind
                == ErrorKind::LaneExists ==> e.args == seq![name])
        }),
{
    lane_rules::law_overlap_refused_exactly(records, name, paths, 0);
    lane_rules::law_reported_overlap_is_there(records, name, paths, 0);
}

/// An opening that meets no failure registers the lane, adds its workspace,
/// shows the paths of a sparse one, and ends well; a failure to add takes the
/// registration back and ends badly.
pub proof fn law_open_goes_through(sparse: bool)
    ensures
        ({
            let start = OpenFacts {
                failed: false,
                registered: false,
                added: false,
                materialized: false,
                rolled_back: false,
            };
            let registered = OpenFacts { registered: true, ..start };
            let added = OpenFacts { added: true, ..registered };
            let shown = OpenFacts { materialized: true, ..added };
            let refused = OpenFacts { failed: true, ..registered };
            &&& open_next(sparse, start) == OpenStep::Register
            &&& open_next(sparse, registered) == OpenStep::Add
            &&& open_next(true, added) == OpenStep::Materialize
            &&& open_next(false, added) == OpenStep::Done(true)
            &&& open_next(true, shown) == OpenStep::Done(true)
            &&& open_next(sparse, OpenFacts { failed: true, ..start }) == OpenStep::Done(false)
            &&& open_next(sparse, refused) == OpenStep::RollBack
            &&& open_next(sparse, OpenFacts { rolled_back: true, ..refused }) == OpenStep::Done(
                false,
            )
            &&& open_next(sparse, OpenFacts { failed: true, ..added }) == OpenStep::Done(false)
        }),
{
}

/// A plan for opening a lane: the workspace has the lane's name, stands on the
/// base, and starts empty where it is sparse; it is sparse as was asked, else as
/// is configured; and a sparse one shows the write-set, the ignore file and the
/// configured context, and nothing else.
pub proof fn law_open_plan_is_as_asked(
    plan: LaneOpenPlan,
    config: RepoConfig,
    name: Seq<char>,
    paths: Seq<Seq<char>>,
    sparse: Option<bool>,
    base: RevView,
    target_root: Seq<char>,
    shown: Seq<char>,
)
    requires
        plan_matches(plan, config, name, paths, sparse, base, target_root),
    ensures
        plan.outcome.sparse == (sparse == Some(true) || (sparse is None && config.lane.sparse)),
        plan.add@ == seq![
            "workspace"@,
            "add"@,
            "--name"@,
            name,
            "-r"@,
            base.commit_id,
            "--sparse-patterns"@,
            if plan.outcome.sparse {
                "empty"@
            } else {
                "full"@
            },
            target_root,
        ],
        plan.materialize is Some <==> plan.outcome.sparse,
        plan.outcome.name@ == name && plan.outcome.path@ == target_root && plan.outcome.base@ == base
            && types::path_views(plan.outcome.paths@) == paths,
        sparse_paths(config, paths).contains(shown) <==> paths.contains(shown) || shown
            == ".gitignore"@ || types::path_views(config.lane.context_paths@).contains(shown),
{
    assert(plan.add@ =~= seq![
        "workspace"@,
        "add"@,
        "--name"@,
        name,
        "-r"@,
        base.commit_id,
        "--sparse-patterns"@,
        if plan.outcome.sparse {
            "empty"@
        } else {
            "full"@
        },
        target_root,
    ]);
    let context = types::path_views(config.lane.context_paths@);
    let all = sparse_paths(config, paths);
    let n = paths.len() as int;
    if paths.contains(shown) {
        let i = choose|i: int| 0 <= i < paths.len() && paths[i] == shown;
        assert(all[i] == shown);
    }
    if shown == ".gitignore"@ {
        assert(all[n] == shown);
    }
    if context.contains(shown) {
        let i = choose|i: int| 0 <= i < context.len() && context[i] == shown;
        assert(all[n + 1 + i] == shown);
    }
    if all.contains(shown) {
        let i = choose|i: int| 0 <= i < all.len() && all[i] == shown;
        if i < n {
            assert(paths[i] == shown);
        } else if i > n {
            assert(context[i - n - 1] == shown);
        }
    }
}

/// What the list says of a lane is what was found of it; of a lane that is not
/// open, or whose workspace is gone, nothing was found.
pub proof fn law_list_shows_what_was_found(entry: LaneListEntry, record: LaneRecord, live: LaneLive)
    requires
        entry_matches(entry, record, live),
    ensures
        entry.name@ == record.name@,
        entry.lifecycle == record.lifecycle,
        types::path_views(entry.paths@) == record@.paths,
        entry.workspace_exists <==> record.lifecycle == LaneLifecycle::Open
            && live.workspace_exists,
        entry.workspace_exists ==> entry.synced == live.synced && entry.ahead == live.ahead
            && entry.behind == live.behind && entry.conflicts == live.conflicts && forall|
            path: Seq<char>,
        | #[trigger]
            text::views(entry.unscoped@).contains(path) <==> text::views(live.changed@).contains(
                path,
            ) && !lane_rules::in_scope(path, record@.paths),
        !entry.workspace_exists ==> !entry.synced && entry.ahead == 0 && entry.behind == 0
            && entry.conflicts == 0 && entry.unscoped@.len() == 0,
        text::opt_view(entry.last_land) == (match record.last_land {
            Some(land) => Some(land.head_commit@),
            None => None,
        }),
{
    if entry.workspace_exists {
        assert forall|path: Seq<char>| #[trigger]
            text::views(entry.unscoped@).contains(path) <==> text::views(live.changed@).contains(
                path,
            ) && !lane_rules::in_scope(path, record@.paths) by {
            lane_rules::law_scope_divides_paths(text::views(live.changed@), record@.paths, path);
        }
    } else {
        assert(text::views(entry.unscoped@).len() == entry.unscoped@.len());
    }
}

/// Garbage collection finds all that there is to collect: every workspace whose
/// directory is gone, but the trunk and the current one; every open lane without
/// a workspace; and on request every retired lane.
pub proof fn law_gc_finds_everything(
    plan: LaneGcPlan,
    records: Seq<LaneRecord>,
    listed: Seq<ListedWorkspace>,
    trunk: Seq<char>,
    current: Seq<char>,
    prune: bool,
    w: ListedWorkspace,
    r: LaneRecord,
)
    requires
        gc_plan_matches(plan, records, listed, trunk, current, prune),
    ensures
        listed.contains(w) && w.missing && w.name@ != trunk && w.name@ != current
            ==> types::name_views(plan.ghost_workspaces@).contains(w.name@),
        records.contains(r) && r.lifecycle == LaneLifecycle::Open && !listed_names(listed).contains(
            r.name@,
        ) ==> types::name_views(plan.orphaned_lanes@).contains(r.name@),
        prune && records.contains(r) && r.lifecycle != LaneLifecycle::Open ==> types::name_views(
            plan.prunable_lanes@,
        ).contains(r.name@),
{
    if listed.contains(w) && w.missing && w.name@ != trunk && w.name@ != current {
        let keep = is_ghost(trunk, current);
        let i = choose|i: int| 0 <= i < listed.len() && listed[i] == w;
        listed.lemma_filter_contains(keep, i);
        let ghosts = listed.filter(keep);
        let k = choose|k: int| 0 <= k < ghosts.len() && ghosts[k] == w;
        assert(listed_names(ghosts)[k] == w.name@);
    }
    if records.contains(r) {
        let i = choose|i: int| 0 <= i < records.len() && records[i] == r;
        if r.lifecycle == LaneLifecycle::Open && !listed_names(listed).contains(r.name@) {
            let keep = is_orphan(listed_names(listed));
            records.lemma_filter_contains(keep, i);
            let found = records.filter(keep);
            let k = choose|k: int| 0 <= k < found.len() && found[k] == r;
            assert(lane_store::record_names(found)[k] == r.name@);
        }
        if prune && r.lifecycle != LaneLifecycle::Open {
            let keep = is_retired();
            records.lemma_filter_contains(keep, i);
            let found = records.filter(keep);
            let k = choose|k: int| 0 <= k < found.len() && found[k] == r;
            assert(lane_store::record_names(found)[k] == r.name@);
        }
    }
}

proof fn lemma_view_position(views: Seq<RecordView>, name: Seq<char>, i: int)
    requires
        0 <= i <= views.len(),
    ensures
        match view_position_from(views, name, i) {
            Some(p) => i <= p < views.len() && views[p].name == name && forall|j: int|
                i <= j < p ==> (#[trigger] views[j]).name != name,
            None => forall|j: int| i <= j < views.len() ==> (#[trigger] views[j]).name != name,
        },
    decreases views.len() - i,
{
    if i < views.len() {
        lemma_view_position(views, name, i + 1);
    }
}

/// A lane that was given up.
pub open spec fn given_up(record: RecordView, at: Timestamp) -> RecordView {
    RecordView { lifecycle: LaneLifecycle::Abandoned, closed_at: Some(at), ..record }
}

/// Giving up lanes touches these and no others: the registry keeps its records
/// in their places, each is as it was unless its lane was named, and the first
/// record of each lane that was named is abandoned now. It works exactly where
/// every named lane is registered.
pub proof fn law_giving_up_touches_only_the_named(
    views: Seq<RecordView>,
    names: Seq<Seq<char>>,
    at: Timestamp,
)
    ensures
        abandoned_views(views, names, at) is Some <==> forall|n: int|
            0 <= n < names.len() ==> has_name(views, #[trigger] names[n]),
        abandoned_views(views, names, at) matches Some(after) ==> {
            &&& after.len() == views.len()
            &&& forall|i: int|
                0 <= i < views.len() ==> #[trigger] after[i] == views[i] || (names.contains(
                    views[i].name,
                ) && after[i] == given_up(views[i], at))
            &&& forall|n: int, i: int|
                0 <= n < names.len() && is_first_of(views, names[n], i) ==> (#[trigger] names[n])
                    == names[n] && (#[trigger] after[i]) == given_up(views[i], at)
        },
    decreases names.len(),
{
    if names.len() > 0 {
        let front = names.drop_last();
        let name = names.last();
        let last = names.len() - 1;
        law_giving_up_touches_only_the_named(views, front, at);
        assert(forall|n: int| 0 <= n < front.len() ==> front[n] == names[n]);
        if let Some(before) = abandoned_views(views, front, at) {
            assert(forall|i: int| 0 <= i < views.len() ==> (#[trigger] before[i]).name == views[i].name);
            lemma_view_position(before, name, 0);
            match view_position_from(before, name, 0) {
                None => {
                    if has_name(views, name) {
                        let i = choose|i: int|
                            0 <= i < views.len() && (#[trigger] views[i]).name == name;
                        assert(before[i].name == name);
                    }
                    assert(!has_name(views, names[last]));
                },
                Some(p) => {
                    assert(views[p].name == name);
                    let after = before.update(p, given_up(before[p], at));
                    assert(abandoned_views(views, names, at) == Some(after));
                    assert forall|n: int| 0 <= n < names.len() implies has_name(
                        views,
                        #[trigger] names[n],
                    ) by {
                        if n < last {
                            assert(front[n] == names[n]);
                        } else {
                            assert(views[p].name == names[n]);
                        }
                    }
                    assert(names.contains(name)) by {
                        assert(names[last] == name);
                    }
                    assert forall|i: int| 0 <= i < views.len() implies #[trigger] after[i]
                        == views[i] || (names.contains(views[i].name) && after[i] == given_up(
                        views[i],
                        at,
                    )) by {
                        assert(before[i] == views[i] || (front.contains(views[i].name) && before[i]
                            == given_up(views[i], at)));
                        if front.contains(views[i].name) {
                            let k = choose|k: int| 0 <= k < front.len() && front[k] == views[i].name;
                            assert(names[k] == views[i].name);
                        }
                    }
                    assert forall|n: int, i: int|
                        0 <= n < names.len() && is_first_of(views, names[n], i) implies (
                    #[trigger] names[n]) == names[n] && (#[trigger] after[i]) == given_up(
                        views[i],
                        at,
                    ) by {
                        if n < last {
                            assert(front[n] == names[n]);
                            assert(before[i] == given_up(views[i], at));
                        } else {
                            if i < p {
                                assert(before[i].name != name);
                            } else if p < i {
                                assert(views[p].name != name);
                            }
                            assert(i == p);
                            assert(before[i] == views[i] || before[i] == given_up(views[i], at));
                        }
                    }
                },
            }
        } else {
            let n = choose|n: int| 0 <= n < front.len() && !has_name(views, #[trigger] front[n]);
            assert(!has_name(views, names[n]));
        }
    }
}

/// Some record has the name.
pub open spec fn has_name(views: Seq<RecordView>, name: Seq<char>) -> bool {
    exists|i: int| 0 <= i < views.len() && (#[trigger] views[i]).name == name
}

/// The record at `i` is the first of the name.
pub open spec fn is_first_of(views: Seq<RecordView>, name: Seq<char>, i: int) -> bool {
    0 <= i < views.len() && views[i].name == name && forall|j: int|
        0 <= j < i ==> (#[trigger] views[j]).name != name
}

/// Dropping records takes exactly those of the named lanes.
pub proof fn law_pruning_drops_only_the_named(
    views: Seq<RecordView>,
    names: Seq<Seq<char>>,
    record: RecordView,
)
    ensures
        views.filter(view_kept(names)).contains(record) <==> views.contains(record)
            && !names.contains(record.name),
{
    let keep = view_kept(names);
    if views.filter(keep).contains(record) {
        let k = choose|k: int| 0 <= k < views.filter(keep).len() && views.filter(keep)[k] == record;
        views.lemma_filter_pred(keep, k);
        views.lemma_filter_contains_rev(keep, record);
    }
    if views.contains(record) && !names.contains(record.name) {
        let i = choose|i: int| 0 <= i < views.len() && views[i] == record;
        views.lemma_filter_contains(keep, i);
    }
}

/// What removing a lane takes, step by step: its workspace is forgotten, its
/// directory deleted, and the lane retired; abandoning writes the diff first
/// where there is one, and without a workspace only retires the lane.
pub proof fn law_retiring_step_by_step(
    storage: Seq<char>,
    name: Seq<char>,
    diff: Seq<char>,
    at: Timestamp,
)
    ensures
        removal_plan(name) == seq![
            RetireStepView::Forget(seq!["workspace"@, "forget"@, name]),
            RetireStepView::DeleteDirectory,
            RetireStepView::Retire,
        ],
        abandon_plan(storage, name, false, diff, at) == seq![RetireStepView::Retire],
        text::trim(diff).len() == 0 ==> abandon_plan(storage, name, true, diff, at)
            == removal_plan(name),
        text::trim(diff).len() > 0 ==> abandon_plan(storage, name, true, diff, at).skip(1)
            == removal_plan(name) && abandon_plan(storage, name, true, diff, at).len() == 4,
{
    assert(removal_plan(name)[0] == RetireStepView::Forget(jj::workspace_forget_args(name)));
    let plan = abandon_plan(storage, name, true, diff, at);
    if text::trim(diff).len() == 0 {
        assert(plan =~= removal_plan(name));
    } else {
        assert(plan.skip(1) =~= removal_plan(name));
    }
}

/// A diff is archived in navi's own directory, under the name of its workspace
/// and the time.
pub proof fn law_archives_stand_in_navis_directory(
    storage: Seq<char>,
    name: Seq<char>,
    at: Timestamp,
)
    requires
        storage.len() > 0,
        storage.last() != '/',
    ensures
        archive_file(storage, name, at) == storage + "/navi/archive/"@ + name + "-"@ + stamp_of(at)
            + ".diff"@,
{
    reveal_strlit("/");
    reveal_strlit("navi");
    reveal_strlit("archive");
    reveal_strlit("/navi/archive/");
    assert("/"@ =~= seq!['/']);
    assert("navi"@.last() == 'i' && "archive"@.last() == 'e');
    let dir = storage + "/"@ + "navi"@;
    let archive = dir + "/"@ + "archive"@;
    if text::ends_with(storage, "/"@) {
        assert(storage.skip(storage.len() - 1)[0] == '/');
    }
    assert(config::navi_dir(storage) == dir);
    assert(dir.last() == 'i');
    if text::ends_with(dir, "/"@) {
        assert(dir.skip(dir.len() - 1)[0] == dir.last());
    }
    assert(config::navi_file(storage, "archive"@) == archive);
    assert(archive.last() == 'e');
    if text::ends_with(archive, "/"@) {
        assert(archive.skip(archive.len() - 1)[0] == archive.last());
    }
    let file = name + "-"@ + stamp_of(at) + ".diff"@;
    assert("/"@ + "navi"@ + "/"@ + "archive"@ + "/"@ =~= "/navi/archive/"@);
    assert(archive + "/"@ + file =~= storage + "/navi/archive/"@ + name + "-"@ + stamp_of(at)
        + ".diff"@);
}

/// Registering a lane takes up its record and keeps every other lane's: what
/// the registry holds afterwards is the record and the records of all other
/// names, and nothing else, in the order of their names.
pub proof fn law_registering_keeps_the_others(
    before: Seq<LaneRecord>,
    after: Seq<LaneRecord>,
    record: LaneRecord,
    r: LaneRecord,
    i: int,
    j: int,
)
    requires
        registers(before, after, record),
    ensures
        after.contains(r) <==> r == record || (before.contains(r) && r.name@ != record.name@),
        0 <= i < j < after.len() ==> !order::text_lt(after[j].name@, after[i].name@),
{
    let keep = lane_store::named_otherwise(record.name@);
    let others = before.filter(keep);
    let items = others.push(record);
    let names = lane_store::record_names(items);
    order::lemma_sorted_rising_items(after, items, names);
    if after.contains(r) {
        let k = choose|k: int| 0 <= k < items.len() && items[k] == r;
        if k < others.len() {
            assert(others[k] == r);
            before.lemma_filter_pred(keep, k);
            before.lemma_filter_contains_rev(keep, r);
        }
    }
    if r == record {
        assert(items[others.len() as int] == r);
        assert(items.contains(r));
    }
    if before.contains(r) && r.name@ != record.name@ {
        let k = choose|k: int| 0 <= k < before.len() && before[k] == r;
        before.lemma_filter_contains(keep, k);
        let m = choose|m: int| 0 <= m < others.len() && others[m] == r;
        assert(items[m] == r);
        assert(items.contains(r));
    }
    if 0 <= i < j < after.len() {
        let perm = choose|perm: Seq<int>| #[trigger]
            order::rising_positions(perm, names) && after == perm.map_values(|p: int| items[p]);
        order::law_rising_order(perm, names, i, j, 0);
        assert(after[i] == items[perm[i]] && after[j] == items[perm[j]]);
        assert(names[perm[i]] == items[perm[i]].name@ && names[perm[j]] == items[perm[j]].name@);
    }
}

/// A lane's write-set is replaced and nothing else: no other lane changes, nor
/// anything else of this one.
pub proof fn law_only_the_write_set_is_replaced(
    before: LaneStore,
    after: LaneStore,
    i: int,
    paths: Seq<LanePath>,
    k: int,
)
    requires
        paths_replaced(before, after, i, paths),
        0 <= i < before.records@.len(),
        0 <= k < before.records@.len(),
    ensures
        after.records@.len() == before.records@.len(),
        k != i ==> after.records@[k]@ == before.records@[k]@,
        k == i ==> after.records@[k]@.paths == types::path_views(paths) && after.records@[k]@ == (
        RecordView { paths: types::path_views(paths), ..before.records@[k]@ }),
{
    let old_views = lane_store::record_views(before.records@);
    let new_views = lane_store::record_views(after.records@);
    assert(old_views.len() == before.records@.len() && new_views.len() == after.records@.len());
    assert(new_views[k] == after.records@[k]@ && old_views[k] == before.records@[k]@);
}

/// A lane is open exactly where the first record of its name is.
pub proof fn law_open_is_what_the_first_record_says(
    records: Seq<LaneRecord>,
    name: Seq<char>,
    i: int,
)
    requires
        0 <= i < records.len(),
        records[i].name@ == name,
        forall|k: int| 0 <= k < i ==> (#[trigger] records[k]).name@ != name,
    ensures
        lane_is_open(records, name) <==> records[i].lifecycle == LaneLifecycle::Open,
{
    lane_store::law_lanes_are_found_by_name(records, name);
}

/// What a time contributes to a file name has no colon in it.
pub proof fn law_stamps_have_no_colon(at: Timestamp)
    ensures
        !stamp_of(at).contains(':'),
{
    match at.text() {
        Ok(s) => {
            lemma_replaced_is_gone(s, ':', "-"@);
        },
        Err(_) => {
            reveal_strlit("unknown-time");
        },
    }
}

proof fn lemma_replaced_is_gone(s: Seq<char>, c: char, with: Seq<char>)
    requires
        c == ':',
        with == "-"@,
    ensures
        !text::replace_char(s, c, with).contains(c),
    decreases s.len(),
{
    reveal_strlit("-");
    let out = text::replace_char(s, c, with);
    if s.len() > 0 {
        let front = text::replace_char(s.drop_last(), c, with);
        lemma_replaced_is_gone(s.drop_last(), c, with);
        if out.contains(c) {
            let i = choose|i: int| 0 <= i < out.len() && out[i] == c;
            if i < front.len() {
                assert(front[i] == c);
            }
        }
    }
}

} // verus!
