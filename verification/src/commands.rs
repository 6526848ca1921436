//! Decisions and texts of the single commands: what is asked before something
//! is destroyed, what is refused, and what is reported.

use vstd::prelude::*;

use crate::config::{self, debug_string};
use crate::error::{self, Error, ErrorKind, Result};
use crate::jj::{self, JjRequest};
use crate::lane_render;
use crate::revset::{self, workspace_revset_symbol};
use crate::text::{
    self, cat2, cat3, cat4, cat5, cat7, copy, copy_all, joined, same, size_number, trimmed,
};
use crate::types::{
    self, path_texts, LaneGcPlan, LaneLifecycle, LaneListEntry, LanePath, LaneRev, RepoConfig,
    WorkspaceMergeRevision, WorkspaceName,
};

verus! {

// ---------------------------------------------------------------------------
// Confirmation

/// What ends every confirmation prompt.
pub const CONFIRM_PROMPT: &'static str = "Type 'yes' to continue: ";

/// Whether the answer to a prompt lets a destructive command go on: only the
/// word `yes` does.
pub fn confirmed(answer: &str) -> (res: Result<()>)
    ensures
        match res {
            Ok(_) => text::trim(answer@) == "yes"@,
            Err(e) => text::trim(answer@) != "yes"@ && e@ == error::plain(
                ErrorKind::RemoveCancelled,
            ),
        },
{
    if same(trimmed(answer).as_str(), "yes") {
        Ok(())
    } else {
        Err(Error::RemoveCancelled)
    }
}

/// The prompt before a lane is abandoned.
pub fn abandon_prompt(name: &WorkspaceName) -> (res: String)
    ensures
        res@ == "This will archive and discard lane '"@ + name@
            + "' and delete its workspace directory."@,
{
    cat3(
        "This will archive and discard lane '",
        name.as_str(),
        "' and delete its workspace directory.",
    )
}

/// The prompt before a workspace is removed, one text per line. The archive is
/// none where the working copy has no changes.
pub fn remove_prompt(workspace: &WorkspaceName, root: &str, archive: &Option<String>) -> (res: Vec<
    String,
>)
    ensures
        text::views(res@) == seq![
            "This will permanently remove workspace '"@ + workspace@ + "'."@,
            "Directory to delete: "@ + root@,
            match text::opt_view(*archive) {
                Some(path) => "Unlanded changes archived to: "@ + path,
                None => "The workspace has no working-copy changes."@,
            },
        ],
{
    let last = match archive {
        Some(path) => cat2("Unlanded changes archived to: ", path.as_str()),
        None => copy("The workspace has no working-copy changes."),
    };
    let out: Vec<String> = vec![
        cat3("This will permanently remove workspace '", workspace.as_str(), "'."),
        cat2("Directory to delete: ", root),
        last,
    ];
    assert(text::views(out@) =~= seq![out@[0]@, out@[1]@, out@[2]@]);
    out
}

/// The report of a removal, one text per line.
pub open spec fn remove_lines(
    workspace: Seq<char>,
    root: Seq<char>,
    archive: Option<Seq<char>>,
) -> Seq<Seq<char>> {
    let head = seq![
        "forgot workspace '"@ + workspace + "'"@,
        "deleted workspace directory '"@ + root + "'"@,
    ];
    match archive {
        Some(path) => head.push("archived working-copy diff to '"@ + path + "'"@),
        None => head,
    }
}

/// Render the report of a removal.
pub fn render_remove(workspace: &WorkspaceName, root: &str, archive: &Option<String>) -> (res: Vec<
    String,
>)
    ensures
        text::views(res@) == remove_lines(workspace@, root@, text::opt_view(*archive)),
{
    broadcast use text::lemma_views_push;

    let mut out: Vec<String> = vec![
        cat3("forgot workspace '", workspace.as_str(), "'"),
        cat3("deleted workspace directory '", root, "'"),
    ];
    assert(text::views(out@) =~= seq![out@[0]@, out@[1]@]);
    if let Some(path) = archive {
        out.push(cat3("archived working-copy diff to '", path.as_str(), "'"));
    }
    out
}

// ---------------------------------------------------------------------------
// Removing a workspace

/// What is known while a workspace is removed.
pub struct RemoveFacts {
    /// What the working copy changes.
    pub diff: Option<String>,
    /// The diff was archived.
    pub archived: bool,
    /// The removal was confirmed.
    pub confirmed: bool,
    /// The workspace was forgotten.
    pub forgotten: bool,
    /// The directory was deleted.
    pub deleted: bool,
}

/// The next step of removing a workspace.
#[derive(Debug, PartialEq, Eq)]
pub enum RemoveStep {
    /// Snapshot the working copy, and ask what it changes.
    AskDiff(JjRequest),
    /// Archive the diff.
    Archive,
    /// Ask whether to go on.
    Confirm,
    /// Forget the workspace.
    Forget(JjRequest),
    /// Delete its directory.
    DeleteDirectory,
    /// Nothing is left to do.
    Done,
}

/// A step of removing a workspace as mathematical values.
pub enum RemoveStepView {
    AskDiff(Seq<Seq<char>>),
    Archive,
    Confirm,
    Forget(Seq<Seq<char>>),
    DeleteDirectory,
    Done,
}

impl View for RemoveStep {
    type V = RemoveStepView;

    open spec fn view(&self) -> RemoveStepView {
        match self {
            RemoveStep::AskDiff(r) => RemoveStepView::AskDiff(r@),
            RemoveStep::Archive => RemoveStepView::Archive,
            RemoveStep::Confirm => RemoveStepView::Confirm,
            RemoveStep::Forget(r) => RemoveStepView::Forget(r@),
            RemoveStep::DeleteDirectory => RemoveStepView::DeleteDirectory,
            RemoveStep::Done => RemoveStepView::Done,
        }
    }
}

/// The next step of removing a workspace: a diff that is not blank is archived
/// before it is asked for confirmation, and nothing is removed before that.
pub open spec fn remove_next(name: Seq<char>, yes: bool, facts: RemoveFacts) -> RemoveStepView {
    match facts.diff {
        None => RemoveStepView::AskDiff(jj::diff_git_rev_args(revset::workspace_symbol(name))),
        Some(diff) => if text::trim(diff@).len() > 0 && !facts.archived {
            RemoveStepView::Archive
        } else if !yes && !facts.confirmed {
            RemoveStepView::Confirm
        } else if !facts.forgotten {
            RemoveStepView::Forget(jj::workspace_forget_args(name))
        } else if !facts.deleted {
            RemoveStepView::DeleteDirectory
        } else {
            RemoveStepView::Done
        },
    }
}

/// Decide the next step of removing a workspace.
pub fn remove_step(workspace: &WorkspaceName, yes: bool, facts: &RemoveFacts) -> (res: RemoveStep)
    ensures
        res@ == remove_next(workspace@, yes, *facts),
{
    match &facts.diff {
        None => RemoveStep::AskDiff(
            JjRequest::diff_git_rev(workspace_revset_symbol(workspace).as_str()),
        ),
        Some(diff) => {
            let body = trimmed(diff.as_str());
            if text::char_count(body.as_str()) > 0 && !facts.archived {
                RemoveStep::Archive
            } else if !yes && !facts.confirmed {
                RemoveStep::Confirm
            } else if !facts.forgotten {
                RemoveStep::Forget(JjRequest::workspace_forget(workspace.as_str()))
            } else if !facts.deleted {
                RemoveStep::DeleteDirectory
            } else {
                RemoveStep::Done
            }
        },
    }
}

/// A removal destroys nothing that was not archived, and nothing that was not
/// confirmed; and the directory goes only once the workspace is forgotten.
pub proof fn law_remove_archives_first(name: Seq<char>, yes: bool, facts: RemoveFacts)
    requires
        remove_next(name, yes, facts) is Forget || remove_next(name, yes, facts) is DeleteDirectory,
    ensures
        facts.diff matches Some(diff) && (text::trim(diff@).len() == 0 || facts.archived),
        yes || facts.confirmed,
        remove_next(name, yes, facts) is DeleteDirectory ==> facts.forgotten,
{
}

// ---------------------------------------------------------------------------
// Running a raw command

/// The exit code to hand on: the child's, where it has one that fits, and 1
/// otherwise.
pub fn exit_code(code: Option<i32>) -> (res: u8)
    ensures
        match code {
            Some(c) => if 0 <= c <= 255 {
                res == c
            } else {
                res == 1
            },
            None => res == 1,
        },
{
    match code {
        Some(c) => {
            if 0 <= c && c <= 255 {
                c as u8
            } else {
                1
            }
        },
        None => 1,
    }
}

/// The directory that a raw command runs in: that of the named workspace,
/// which has to be there, or the current one.
pub fn exec_root(
    current_root: &str,
    workspace: Option<&WorkspaceName>,
    resolved: &str,
    switchable: bool,
) -> (res: Result<String>)
    ensures
        match workspace {
            None => res matches Ok(root) && root@ == current_root@,
            Some(name) => if switchable {
                res matches Ok(root) && root@ == resolved@
            } else {
                res matches Err(e) && e@ == error::about2(
                    ErrorKind::WorkspaceDirectoryUnavailable,
                    name@,
                    resolved@,
                )
            },
        },
{
    match workspace {
        None => Ok(copy(current_root)),
        Some(name) => {
            if switchable {
                Ok(copy(resolved))
            } else {
                Err(
                    Error::WorkspaceDirectoryUnavailable {
                        workspace: copy(name.as_str()),
                        path: copy(resolved),
                    },
                )
            }
        },
    }
}

// ---------------------------------------------------------------------------
// The effective configuration

/// A list of quoted paths.
pub open spec fn quoted_paths(paths: Seq<Seq<char>>) -> Seq<Seq<char>> {
    paths.map_values(|p: Seq<char>| config::debug_text(p))
}

/// The report of the effective configuration.
pub open spec fn config_lines(path: Seq<char>, present: bool, config: RepoConfig) -> Seq<Seq<char>> {
    seq![
        "config: "@ + path + " ("@ + (if present {
            "exists"@
        } else {
            "defaults; not written yet"@
        }) + ")"@,
        "workspace_template = "@ + config::debug_text(config.workspace_template@),
        "[lane]"@,
        "trunk = "@ + config::debug_text(config.lane.trunk@),
        match text::opt_view(config.lane.gate) {
            Some(gate) => "gate = "@ + config::debug_text(gate),
            None => "# gate = (none configured)"@,
        },
        "sparse = "@ + (if config.lane.sparse {
            "true"@
        } else {
            "false"@
        }),
        "context_paths = ["@ + text::join(
            quoted_paths(types::path_views(config.lane.context_paths@)),
            ", "@,
        ) + "]"@,
    ]
}

fn quote_paths(paths: &Vec<LanePath>) -> (res: Vec<String>)
    ensures
        text::views(res@) == quoted_paths(types::path_views(paths@)),
{
    broadcast use text::lemma_views_push;

    let ghost all = quoted_paths(types::path_views(paths@));
    let mut out: Vec<String> = Vec::new();
    let mut i: usize = 0;
    assert(text::views(out@) =~= all.take(0));
    while i < paths.len()
        invariant
            i <= paths@.len(),
            all == quoted_paths(types::path_views(paths@)),
            text::views(out@) == all.take(i as int),
        decreases paths@.len() - i,
    {
        out.push(debug_string(paths[i].as_str()));
        i = i + 1;
        assert(all.take(i as int) =~= all.take(i - 1).push(all[i - 1]));
    }
    assert(all.take(i as int) =~= all);
    out
}

/// Render the effective configuration, one text per line.
pub fn render_config(path: &str, present: bool, config: &RepoConfig) -> (res: Vec<String>)
    ensures
        text::views(res@) == config_lines(path@, present, *config),
{
    let origin = if present {
        "exists"
    } else {
        "defaults; not written yet"
    };
    let gate = match &config.lane.gate {
        Some(gate) => cat2("gate = ", debug_string(gate.as_str()).as_str()),
        None => copy("# gate = (none configured)"),
    };
    let sparse = if config.lane.sparse {
        "true"
    } else {
        "false"
    };
    let paths = quote_paths(&config.lane.context_paths);
    let out: Vec<String> = vec![
        cat5("config: ", path, " (", origin, ")"),
        cat2(
            "workspace_template = ",
            debug_string(config.workspace_template.as_str()).as_str(),
        ),
        copy("[lane]"),
        cat2("trunk = ", debug_string(config.lane.trunk.as_str()).as_str()),
        gate,
        cat2("sparse = ", sparse),
        cat3("context_paths = [", joined(&paths, ", ").as_str(), "]"),
    ];
    assert(text::views(out@) =~= config_lines(path@, present, *config));
    out
}

// ---------------------------------------------------------------------------
// Lanes

/// What an unknown lifecycle is answered.
pub open spec fn unknown_lifecycle(value: Seq<char>) -> error::ErrorView {
    error::about(
        ErrorKind::Engine,
        "unknown --lifecycle '"@ + value + "'; use open, closed, abandoned, or all"@,
    )
}

/// The lanes that a list is limited to.
pub open spec fn lifecycle_filter(value: Option<Seq<char>>) -> std::result::Result<
    Option<LaneLifecycle>,
    error::ErrorView,
> {
    match value {
        None => Ok(None),
        Some(v) => if v == "all"@ {
            Ok(None)
        } else {
            match LaneLifecycle::parsed(v) {
                Some(lifecycle) => Ok(Some(lifecycle)),
                None => Err(unknown_lifecycle(v)),
            }
        },
    }
}

/// The lifecycle that a list is limited to; none for all lanes.
pub fn parse_lifecycle_filter(value: &Option<String>) -> (res: Result<Option<LaneLifecycle>>)
    ensures
        match lifecycle_filter(text::opt_view(*value)) {
            Ok(filter) => res == Ok::<Option<LaneLifecycle>, Error>(filter),
            Err(view) => res matches Err(e) && e@ == view,
        },
{
    match value {
        None => Ok(None),
        Some(v) => {
            if same(v.as_str(), "all") {
                return Ok(None);
            }
            match LaneLifecycle::parse(v.as_str()) {
                Some(lifecycle) => Ok(Some(lifecycle)),
                None => Err(
                    Error::Engine {
                        message: cat3(
                            "unknown --lifecycle '",
                            v.as_str(),
                            "'; use open, closed, abandoned, or all",
                        ),
                    },
                ),
            }
        },
    }
}

/// Being a lane that a list shows.
pub open spec fn is_shown(filter: Option<LaneLifecycle>) -> spec_fn(LaneListEntry) -> bool {
    |e: LaneListEntry|
        match filter {
            Some(lifecycle) => e.lifecycle == lifecycle,
            None => true,
        }
}

/// The lanes that a list shows.
pub fn shown_lanes(entries: Vec<LaneListEntry>, filter: Option<LaneLifecycle>) -> (res: Vec<
    LaneListEntry,
>)
    ensures
        res@ == entries@.filter(is_shown(filter)),
{
    let ghost all = entries@;
    let ghost keep = is_shown(filter);
    let ghost mut done: int = 0;
    let mut rest = entries;
    let mut out: Vec<LaneListEntry> = Vec::new();
    proof {
        reveal(Seq::filter);
        assert(all.skip(0) =~= all);
        assert(all.take(0).filter(keep) =~= Seq::<LaneListEntry>::empty());
    }
    while rest.len() > 0
        invariant
            0 <= done <= all.len(),
            keep == is_shown(filter),
            rest@ == all.skip(done),
            out@ == all.take(done).filter(keep),
        decreases rest@.len(),
    {
        let entry = rest.remove(0);
        proof {
            reveal(Seq::filter);
            assert(all.take(done + 1).drop_last() =~= all.take(done));
            assert(all.take(done + 1).last() == entry);
            assert(rest@ =~= all.skip(done + 1));
            done = done + 1;
        }
        let show = match filter {
            Some(lifecycle) => entry.lifecycle == lifecycle,
            None => true,
        };
        if show {
            out.push(entry);
        }
    }
    assert(all.take(done) =~= all);
    out
}

/// The line on the write-set of a lane.
pub fn render_write_set(name: &WorkspaceName, paths: &Vec<LanePath>) -> (res: String)
    ensures
        res@ == "lane '"@ + name@ + "' write-set: "@ + lane_render::path_list(paths@),
{
    let texts = path_texts(paths);
    cat4("lane '", name.as_str(), "' write-set: ", joined(&texts, ", ").as_str())
}

/// The report of a closed lane, one text per line.
pub fn render_lane_close(name: &WorkspaceName, removed: &str) -> (res: Vec<String>)
    ensures
        text::views(res@) == seq!["closed lane '"@ + name@ + "'"@, "  removed: "@ + removed@],
{
    let out: Vec<String> = vec![
        cat3("closed lane '", name.as_str(), "'"),
        cat2("  removed: ", removed),
    ];
    assert(text::views(out@) =~= seq![out@[0]@, out@[1]@]);
    out
}

/// How a collection goes on once its plan is known.
#[derive(Debug, PartialEq, Eq)]
pub enum GcStep {
    /// Only report the plan.
    Report,
    /// Ask first.
    Confirm(String),
    /// Carry the plan out.
    Apply,
}

/// A plan has nothing in it.
pub open spec fn plan_is_empty(plan: LaneGcPlan) -> bool {
    plan.ghost_workspaces@.len() == 0 && plan.orphaned_lanes@.len() == 0
        && plan.prunable_lanes@.len() == 0
}

/// What is asked before a plan is carried out.
pub open spec fn gc_prompt(plan: LaneGcPlan) -> Seq<char> {
    "This will forget "@ + text::decimal(plan.ghost_workspaces@.len())
        + " ghost workspace(s), abandon "@ + text::decimal(plan.orphaned_lanes@.len())
        + " orphaned lane(s), and prune "@ + text::decimal(plan.prunable_lanes@.len())
        + " retired record(s)."@
}

/// Whether to carry a collection out.
pub fn gc_step(plan: &LaneGcPlan, apply: bool, yes: bool) -> (res: GcStep)
    ensures
        if !apply || plan_is_empty(*plan) {
            res == GcStep::Report
        } else if yes {
            res == GcStep::Apply
        } else {
            res matches GcStep::Confirm(prompt) && prompt@ == gc_prompt(*plan)
        },
{
    if !apply || plan.is_empty() {
        return GcStep::Report;
    }
    if yes {
        return GcStep::Apply;
    }
    GcStep::Confirm(
        cat7(
            "This will forget ",
            size_number(plan.ghost_workspaces.len()).as_str(),
            " ghost workspace(s), abandon ",
            size_number(plan.orphaned_lanes.len()).as_str(),
            " orphaned lane(s), and prune ",
            size_number(plan.prunable_lanes.len()).as_str(),
            " retired record(s).",
        ),
    )
}

// ---------------------------------------------------------------------------
// Tidying up

/// A phase of a tidy run.
#[derive(Clone, Copy, Debug, PartialEq, Eq, Structural)]
pub enum TidyPhase {
    /// Collect ghost workspaces and orphaned lanes.
    Gc,
    /// Sweep the resolution policies.
    Resolve,
    /// Say that there are no resolution policies.
    NoPolicies,
    /// Heal divergence.
    Heal,
    /// Compare the divergence that is left with what was last seen.
    Tripwire,
}

/// The phases of a tidy run in their order: ghost workspaces first, for their
/// pinned working copies block heals, then conflicts at their roots, where
/// there are policies for them, then divergence.
pub fn tidy_phases(config: &RepoConfig) -> (res: Vec<TidyPhase>)
    ensures
        res@ == seq![
            TidyPhase::Gc,
            if config.resolve@.len() == 0 {
                TidyPhase::NoPolicies
            } else {
                TidyPhase::Resolve
            },
            TidyPhase::Heal,
            TidyPhase::Tripwire,
        ],
{
    let second = if config.resolve.len() == 0 {
        TidyPhase::NoPolicies
    } else {
        TidyPhase::Resolve
    };
    let phases: Vec<TidyPhase> = vec![TidyPhase::Gc, second, TidyPhase::Heal, TidyPhase::Tripwire];
    assert(phases@ =~= seq![TidyPhase::Gc, second, TidyPhase::Heal, TidyPhase::Tripwire]);
    phases
}

pub const TIDY_GC: &'static str = "== tidy: workspace gc";

pub const TIDY_RESOLVE: &'static str = "== tidy: resolve policies";

pub const TIDY_NO_POLICIES: &'static str = "no [resolve] policies configured; skipping";

pub const TIDY_HEAL: &'static str = "== tidy: heal divergence";

pub const TIDY_PLAN_ONLY: &'static str = "plan only; rerun with --apply (--yes to confirm the gc phase)";

/// Changes that the heal of a tidy run heals at most.
pub const TIDY_HEAL_LIMIT: usize = 100;

/// Why a tidy run needs to be confirmed.
pub open spec fn tidy_refusal(plan: LaneGcPlan) -> error::ErrorView {
    error::about(
        ErrorKind::Engine,
        "tidy --apply would forget "@ + text::decimal(plan.ghost_workspaces@.len())
            + " ghost workspace(s) and abandon "@ + text::decimal(plan.orphaned_lanes@.len())
            + " orphaned lane(s)\nhint: rerun with --yes to confirm"@,
    )
}

/// Whether a tidy run carries its collection out. One that would destroy
/// something has to be confirmed up front.
pub fn tidy_gc(plan: &LaneGcPlan, apply: bool, yes: bool) -> (res: Result<bool>)
    ensures
        if !apply || plan_is_empty(*plan) {
            res == Ok::<bool, Error>(false)
        } else if yes {
            res == Ok::<bool, Error>(true)
        } else {
            res matches Err(e) && e@ == tidy_refusal(*plan)
        },
{
    if !apply || plan.is_empty() {
        return Ok(false);
    }
    if yes {
        return Ok(true);
    }
    Err(
        Error::Engine {
            message: cat5(
                "tidy --apply would forget ",
                size_number(plan.ghost_workspaces.len()).as_str(),
                " ghost workspace(s) and abandon ",
                size_number(plan.orphaned_lanes.len()).as_str(),
                " orphaned lane(s)\nhint: rerun with --yes to confirm",
            ),
        },
    )
}

// ---------------------------------------------------------------------------
// Merging

/// The revset whose revisions a merge duplicates: the one given, or the
/// non-empty work of the source that the target does not have.
pub open spec fn merge_revset(
    source: Option<Seq<char>>,
    target: Seq<char>,
    revisions: Option<Seq<char>>,
) -> Option<Seq<char>> {
    match (revisions, source) {
        (Some(given), _) => Some(given),
        (None, Some(name)) => Some(
            "("@ + revset::workspace_symbol(target) + ".."@ + revset::workspace_symbol(name)
                + ") ~ empty()"@,
        ),
        (None, None) => None,
    }
}

/// The text of an optional name.
pub open spec fn opt_name(name: Option<&WorkspaceName>) -> Option<Seq<char>> {
    match name {
        Some(name) => Some(name@),
        None => None,
    }
}

/// The revset that a merge duplicates. A workspace cannot be merged into
/// itself. None where neither a source nor a revset is given.
pub fn merge_source(
    source: Option<&WorkspaceName>,
    target: &WorkspaceName,
    revisions: &Option<String>,
) -> (res: Result<Option<String>>)
    ensures
        if opt_name(source) == Some(target@) {
            res matches Err(e) && e@ == error::about(ErrorKind::MergeSameWorkspace, target@)
        } else {
            res matches Ok(revset) && text::opt_view(revset) == merge_revset(
                opt_name(source),
                target@,
                text::opt_view(*revisions),
            )
        },
{
    if let Some(name) = source {
        if name.same_as(target) {
            return Err(Error::MergeSameWorkspace(copy(target.as_str())));
        }
    }
    match revisions {
        Some(given) => Ok(Some(copy(given.as_str()))),
        None => match source {
            Some(name) => Ok(
                Some(
                    cat5(
                        "(",
                        workspace_revset_symbol(target).as_str(),
                        "..",
                        workspace_revset_symbol(name).as_str(),
                        ") ~ empty()",
                    ),
                ),
            ),
            None => Ok(None),
        },
    }
}

/// The request that duplicates the selected work onto the target's working
/// copy; a source without any such work is an error.
pub fn merge_request(
    source: &str,
    target: &WorkspaceName,
    merged_revset: &str,
    selected: &Vec<LaneRev>,
) -> (res: Result<JjRequest>)
    ensures
        if selected@.len() == 0 {
            res matches Err(e) && e@ == error::about2(
                ErrorKind::MergeSourceEmpty,
                source@,
                target@,
            )
        } else {
            res matches Ok(request) && request@ == jj::duplicate_onto_args(
                merged_revset@,
                revset::workspace_symbol(target@),
            )
        },
{
    if selected.len() == 0 {
        return Err(
            Error::MergeSourceEmpty {
                source_workspace: copy(source),
                target: copy(target.as_str()),
            },
        );
    }
    Ok(JjRequest::duplicate_onto(merged_revset, workspace_revset_symbol(target).as_str()))
}

/// Being none of the commits that were there before.
pub open spec fn is_new(before: Seq<LaneRev>) -> spec_fn(Seq<char>) -> bool {
    |id: Seq<char>| !crate::abandon::commit_ids(before).contains(id)
}

/// The ids of the commits that an operation brought: those listed after it and
/// not before it.
pub fn new_commits(before: &Vec<LaneRev>, after: &Vec<LaneRev>) -> (res: Vec<String>)
    ensures
        text::views(res@) == crate::abandon::commit_ids(after@).filter(is_new(before@)),
{
    broadcast use text::lemma_views_push;

    let ghost all = crate::abandon::commit_ids(after@);
    let ghost old_ids = crate::abandon::commit_ids(before@);
    let ghost keep = is_new(before@);
    let mut out: Vec<String> = Vec::new();
    let mut i: usize = 0;
    proof {
        reveal(Seq::filter);
        text::lemma_views_empty(out@);
        assert(all.take(0).filter(keep) =~= Seq::<Seq<char>>::empty());
    }
    while i < after.len()
        invariant
            i <= after@.len(),
            all == crate::abandon::commit_ids(after@),
            old_ids == crate::abandon::commit_ids(before@),
            keep == is_new(before@),
            text::views(out@) == all.take(i as int).filter(keep),
        decreases after@.len() - i,
    {
        let id = after[i].commit_id.as_str();
        let mut found = false;
        let mut k: usize = 0;
        while k < before.len() && !found
            invariant
                k <= before@.len(),
                old_ids == crate::abandon::commit_ids(before@),
                old_ids.len() == before@.len(),
                found ==> old_ids.contains(id@),
                !found ==> forall|j: int| 0 <= j < k ==> old_ids[j] != id@,
            decreases before@.len() - k,
        {
            if same(before[k].commit_id.as_str(), id) {
                assert(old_ids[k as int] == id@);
                found = true;
            }
            k = k + 1;
        }
        proof {
            reveal(Seq::filter);
            assert(all.take(i + 1).drop_last() =~= all.take(i as int));
            assert(all.take(i + 1).last() == id@);
        }
        if !found {
            out.push(copy(id));
        }
        i = i + 1;
    }
    assert(all.take(i as int) =~= all);
    out
}

/// The machine output of a merge.
#[derive(Debug, PartialEq, Eq)]
pub struct MergeReport {
    pub source: Option<String>,
    pub target: String,
    pub revset: String,
    pub revisions: Vec<WorkspaceMergeRevision>,
    pub duplicated_roots: Vec<String>,
    pub duplicated_heads: Vec<String>,
}

/// A merged revision says what the revision says.
pub open spec fn revision_matches(merged: WorkspaceMergeRevision, revision: LaneRev) -> bool {
    merged.commit_id@ == revision.commit_id@ && merged.change_id@ == revision.change_id@
        && merged.message@ == revision.message@
}

/// The machine output of a merge.
pub fn merge_report(
    source: Option<&WorkspaceName>,
    target: &WorkspaceName,
    merged_revset: &str,
    selected: &Vec<LaneRev>,
    duplicated_roots: &Vec<String>,
    duplicated_heads: &Vec<String>,
) -> (res: MergeReport)
    ensures
        text::opt_view(res.source) == opt_name(source),
        res.target@ == target@,
        res.revset@ == merged_revset@,
        res.revisions@.len() == selected@.len(),
        forall|i: int|
            0 <= i < selected@.len() ==> revision_matches(
                #[trigger] res.revisions@[i],
                selected@[i],
            ),
        text::views(res.duplicated_roots@) == text::views(duplicated_roots@),
        text::views(res.duplicated_heads@) == text::views(duplicated_heads@),
{
    let mut revisions: Vec<WorkspaceMergeRevision> = Vec::new();
    let mut i: usize = 0;
    while i < selected.len()
        invariant
            i <= selected@.len(),
            revisions@.len() == i,
            forall|k: int|
                0 <= k < i ==> revision_matches(#[trigger] revisions@[k], selected@[k]),
        decreases selected@.len() - i,
    {
        revisions.push(
            WorkspaceMergeRevision {
                commit_id: copy(selected[i].commit_id.as_str()),
                change_id: copy(selected[i].change_id.as_str()),
                message: copy(selected[i].message.as_str()),
            },
        );
        i = i + 1;
    }
    let source = match source {
        Some(name) => Some(copy(name.as_str())),
        None => None,
    };
    MergeReport {
        source,
        target: copy(target.as_str()),
        revset: copy(merged_revset),
        revisions,
        duplicated_roots: copy_all(duplicated_roots),
        duplicated_heads: copy_all(duplicated_heads),
    }
}

// ---------------------------------------------------------------------------
// Laws

/// A removal that is allowed goes through: the working copy's changes are asked
/// for, archived where there are any, confirmed unless that was done up front,
/// and then the workspace is forgotten and its directory deleted.
pub proof fn law_remove_goes_through(name: Seq<char>, yes: bool, diff: String)
    ensures
        ({
            let start = RemoveFacts {
                diff: None,
                archived: false,
                confirmed: false,
                forgotten: false,
                deleted: false,
            };
            let known = RemoveFacts { diff: Some(diff), ..start };
            let archived = RemoveFacts { archived: true, ..known };
            let confirmed = RemoveFacts { confirmed: true, ..archived };
            let forgotten = RemoveFacts { forgotten: true, ..confirmed };
            let deleted = RemoveFacts { deleted: true, ..forgotten };
            let forget = RemoveStepView::Forget(seq!["workspace"@, "forget"@, name]);
            &&& remove_next(name, yes, start) is AskDiff
            &&& remove_next(name, yes, start)->AskDiff_0 == jj::diff_git_rev_args(
                revset::quoted(name) + "@"@,
            )
            &&& text::trim(diff@).len() > 0 ==> remove_next(name, yes, known)
                == RemoveStepView::Archive
            &&& text::trim(diff@).len() == 0 ==> remove_next(name, yes, known) == remove_next(
                name,
                yes,
                archived,
            )
            &&& remove_next(name, false, archived) == RemoveStepView::Confirm
            &&& remove_next(name, true, archived) == forget
            &&& remove_next(name, yes, confirmed) == forget
            &&& remove_next(name, yes, forgotten) == RemoveStepView::DeleteDirectory
            &&& remove_next(name, yes, deleted) == RemoveStepView::Done
        }),
{
}

/// A list is limited to a lifecycle by its own word, and by no other; without a
/// word, or with `all`, it shows every lane.
pub proof fn law_lifecycle_words(value: Seq<char>)
    ensures
        lifecycle_filter(None) == Ok::<Option<LaneLifecycle>, error::ErrorView>(None),
        lifecycle_filter(Some(value)) == Ok::<Option<LaneLifecycle>, error::ErrorView>(None)
            <==> value == "all"@,
        lifecycle_filter(Some(value)) == Ok::<Option<LaneLifecycle>, error::ErrorView>(
            Some(LaneLifecycle::Open),
        ) <==> value == "open"@,
        lifecycle_filter(Some(value)) == Ok::<Option<LaneLifecycle>, error::ErrorView>(
            Some(LaneLifecycle::Closed),
        ) <==> value == "closed"@,
        lifecycle_filter(Some(value)) == Ok::<Option<LaneLifecycle>, error::ErrorView>(
            Some(LaneLifecycle::Abandoned),
        ) <==> value == "abandoned"@,
        lifecycle_filter(Some(value)) is Err <==> value != "all"@ && value != "open"@ && value
            != "closed"@ && value != "abandoned"@,
{
    reveal_strlit("all");
    reveal_strlit("open");
    reveal_strlit("closed");
    reveal_strlit("abandoned");
    assert("all"@.len() == 3 && "open"@.len() == 4 && "closed"@.len() == 6 && "abandoned"@.len()
        == 9);
}

/// A list shows exactly the lanes that it is limited to.
pub proof fn law_list_shows_what_was_asked_for(
    entries: Seq<LaneListEntry>,
    filter: Option<LaneLifecycle>,
    entry: LaneListEntry,
)
    ensures
        entries.filter(is_shown(filter)).contains(entry) <==> entries.contains(entry) && (filter
            is None || filter == Some(entry.lifecycle)),
{
    let keep = is_shown(filter);
    let shown = entries.filter(keep);
    if shown.contains(entry) {
        let i = choose|i: int| 0 <= i < shown.len() && shown[i] == entry;
        entries.lemma_filter_pred(keep, i);
        entries.lemma_filter_contains_rev(keep, entry);
    }
    if entries.contains(entry) && keep(entry) {
        let i = choose|i: int| 0 <= i < entries.len() && entries[i] == entry;
        entries.lemma_filter_contains(keep, i);
    }
}

/// A collection has something to do as soon as there is one workspace, one lane
/// or one record to collect, and what is asked first counts all three.
pub proof fn law_gc_asks_about_everything(plan: LaneGcPlan)
    ensures
        plan_is_empty(plan) <==> plan.ghost_workspaces@.len() + plan.orphaned_lanes@.len()
            + plan.prunable_lanes@.len() == 0,
        gc_prompt(plan) == "This will forget "@ + text::decimal(plan.ghost_workspaces@.len())
            + " ghost workspace(s), abandon "@ + text::decimal(plan.orphaned_lanes@.len())
            + " orphaned lane(s), and prune "@ + text::decimal(plan.prunable_lanes@.len())
            + " retired record(s)."@,
{
}

/// A merge takes the revisions that it is given; without any, it takes what the
/// source has and the target has not, and is not empty.
pub proof fn law_merge_takes_the_sources_work(
    source: Seq<char>,
    target: Seq<char>,
    given: Seq<char>,
)
    ensures
        merge_revset(Some(source), target, Some(given)) == Some(given),
        merge_revset(None, target, Some(given)) == Some(given),
        merge_revset(Some(source), target, None) == Some(
            "("@ + (revset::quoted(target) + "@"@) + ".."@ + (revset::quoted(source) + "@"@)
                + ") ~ empty()"@,
        ),
        merge_revset(None, target, None) is None,
{
}

/// What an operation brought is exactly what is there after it and was not
/// before.
pub proof fn law_new_commits_were_not_there(
    before: Seq<LaneRev>,
    after: Seq<LaneRev>,
    id: Seq<char>,
)
    ensures
        crate::abandon::commit_ids(after).filter(is_new(before)).contains(id) <==> (exists|i: int|
            0 <= i < after.len() && (#[trigger] after[i]).commit_id@ == id) && (forall|i: int|
            0 <= i < before.len() ==> (#[trigger] before[i]).commit_id@ != id),
{
    let all = crate::abandon::commit_ids(after);
    let old_ids = crate::abandon::commit_ids(before);
    let keep = is_new(before);
    let found = all.filter(keep);
    if found.contains(id) {
        let i = choose|i: int| 0 <= i < found.len() && found[i] == id;
        all.lemma_filter_pred(keep, i);
        all.lemma_filter_contains_rev(keep, id);
        let k = choose|k: int| 0 <= k < all.len() && all[k] == id;
        assert(after[k].commit_id@ == id);
        assert forall|j: int| 0 <= j < before.len() implies (#[trigger] before[j]).commit_id@
            != id by {
            assert(old_ids[j] == before[j].commit_id@);
        }
    }
    if (exists|i: int| 0 <= i < after.len() && (#[trigger] after[i]).commit_id@ == id) && (forall|
        i: int,
    |
        0 <= i < before.len() ==> (#[trigger] before[i]).commit_id@ != id) {
        let i = choose|i: int| 0 <= i < after.len() && (#[trigger] after[i]).commit_id@ == id;
        assert(all[i] == id);
        if old_ids.contains(id) {
            let k = choose|k: int| 0 <= k < old_ids.len() && old_ids[k] == id;
            assert(before[k].commit_id@ == id);
        }
        all.lemma_filter_contains(keep, i);
    }
}

/// A merged revision is told by its own ids and message.
pub proof fn law_merged_revision_is_its_own(merged: WorkspaceMergeRevision, revision: LaneRev)
    requires
        revision_matches(merged, revision),
    ensures
        merged.commit_id@ == revision@.commit_id,
        merged.change_id@ == revision@.change_id,
        merged.message@ == revision@.message,
{
}

} // verus!
