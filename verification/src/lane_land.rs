//! Landing a lane: every refusal before anything is touched, the head pinned
//! before the landing gate runs, which it does outside the lock, and the target
//! looked at again under the lock before it is advanced. The landing is a
//! sequence of steps; the next step follows from what is known so far.

use vstd::prelude::*;

use crate::error::{self, Error, ErrorKind, Result};
use crate::jj::{self, JjRequest};
use crate::jj_output;
use crate::lane_ops::{
    self, ahead_request, behind_request, range_conflicts_request, NaviWorkspace,
};
use crate::lane_rules::{self, require_open_lane, scoped_paths, unscoped_paths};
use crate::lane_store::{LaneRecord, LaneStore};
use crate::revset::{self, workspace_revset_symbol};
use crate::text::{self, cat2, cat3, cat4, cat5, char_count, copy, joined, same, size_number};
use crate::types::{self, LaneLandRequest, LaneRev, RepoConfig, RevView, WorkspaceName};

verus! {

/// What was found when the landing target was looked up.
pub struct TargetAnswer {
    /// Whether the trunk workspace exists.
    pub trunk_exists: bool,
    /// What the target revset selects.
    pub heads: Vec<LaneRev>,
}

/// The lane's working-copy commit.
pub struct WorkingCopy {
    /// The commit has an empty diff.
    pub empty: bool,
    /// First line of its description.
    pub message: String,
    /// Its parents.
    pub parents: Vec<LaneRev>,
}

/// What would keep a head from being published.
#[derive(Clone, Copy, Debug, PartialEq, Eq, Structural)]
pub struct Hygiene {
    /// Conflicted commits below the head.
    pub conflicts: usize,
    /// Divergent commits below the head.
    pub divergent: usize,
    /// Undescribed commits that would be landed.
    pub undescribed: usize,
}

/// The three requests whose answers are counted.
pub struct HygieneRequests {
    pub conflicts: JjRequest,
    pub divergent: JjRequest,
    pub undescribed: JjRequest,
}

/// What is known while a lane lands.
pub struct LandFacts {
    /// The lane's workspace and its directory exist.
    pub lane_root: Option<bool>,
    /// The lane's working copy was snapshotted.
    pub lane_snapshot: bool,
    /// The target before anything was done.
    pub target: Option<TargetAnswer>,
    /// The lane is on the target head.
    pub synced: Option<bool>,
    /// How many changes the lane lacks.
    pub behind: Option<usize>,
    /// How many conflicted commits the lane has.
    pub conflicts: Option<usize>,
    /// The lane's working-copy commit.
    pub working_copy: Option<WorkingCopy>,
    /// The paths that the lane changes.
    pub changed: Option<Vec<String>>,
    /// The trunk's working copy was snapshotted.
    pub trunk_snapshot: bool,
    /// The paths that the trunk's working copy changes.
    pub trunk_dirty: Option<Vec<String>>,
    /// What would keep the lane from being published.
    pub hygiene: Option<Hygiene>,
    /// The head was described.
    pub described: bool,
    /// The work was parked behind a fresh working copy.
    pub parked: bool,
    /// The parents of the lane's working copy once it was finalized.
    pub pinned: Option<Vec<LaneRev>>,
    /// The landing gate passed.
    pub gate_passed: Option<bool>,
    /// The mutation lock is held.
    pub locked: bool,
    /// The target under the lock.
    pub target_again: Option<TargetAnswer>,
    /// What would keep the pinned head from being published, under the lock.
    pub hygiene_again: Option<Hygiene>,
    /// How many changes land.
    pub landed_changes: Option<usize>,
    /// The integration workspace is there.
    pub integration_ready: bool,
    /// The target was advanced.
    pub advanced: bool,
    /// The landing was recorded in the registry.
    pub recorded: bool,
}

/// What to do next.
pub enum LandStep {
    /// The lane does not land.
    Refuse(Error),
    /// Find out whether the lane's workspace and directory exist.
    CheckLaneRoot,
    /// In the lane: snapshot the working copy, recovering it where it is stale.
    SnapshotLane(JjRequest),
    /// Look up the target.
    AskTarget(JjRequest),
    /// Ask whether the lane is on the target head.
    AskSynced(JjRequest),
    /// Ask for the changes that the lane lacks.
    AskBehind(JjRequest),
    /// Ask for the lane's conflicts.
    AskConflicts(JjRequest),
    /// In the lane: look at the working-copy commit.
    AskWorkingCopy,
    /// Ask for the paths that the lane changes.
    AskChanged(JjRequest),
    /// In the trunk: snapshot the working copy, recovering it where it is stale.
    SnapshotTrunk(JjRequest),
    /// Ask for the paths that the trunk's working copy changes.
    AskTrunkDirty(JjRequest),
    /// Ask what would keep the lane from being published.
    AskHygiene(HygieneRequests),
    /// In the lane: describe the head.
    Describe(JjRequest),
    /// In the lane: start a fresh working copy.
    Park(JjRequest),
    /// In the lane: ask for the parents of the working copy.
    AskPinned(JjRequest),
    /// In the lane: run the landing gate.
    RunGate(String),
    /// Take the mutation lock.
    TakeLock,
    /// Look up the target again.
    AskTargetAgain(JjRequest),
    /// Ask again what would keep the head from being published.
    AskHygieneAgain(HygieneRequests),
    /// Ask for the changes that land.
    AskLandedChanges(JjRequest),
    /// Make sure of the integration workspace.
    PrepareIntegration,
    /// In the trunk workspace: move its working copy onto the head.
    AdvanceTrunk(JjRequest),
    /// In the integration workspace: move the bookmark to the head.
    AdvanceBookmark(JjRequest),
    /// Reload the registry and record the landing.
    Record(LaneRev),
    /// Ripple the head to the other lanes, and retire the lane if asked to.
    Finish(LaneRev),
}

/// The argument lists of three hygiene requests.
pub struct HygieneView {
    pub conflicts: Seq<Seq<char>>,
    pub divergent: Seq<Seq<char>>,
    pub undescribed: Seq<Seq<char>>,
}

impl View for HygieneRequests {
    type V = HygieneView;

    open spec fn view(&self) -> HygieneView {
        HygieneView {
            conflicts: self.conflicts@,
            divergent: self.divergent@,
            undescribed: self.undescribed@,
        }
    }
}

/// A step as mathematical values.
pub enum LandStepView {
    Refuse(error::ErrorView),
    CheckLaneRoot,
    SnapshotLane(Seq<Seq<char>>),
    AskTarget(Seq<Seq<char>>),
    AskSynced(Seq<Seq<char>>),
    AskBehind(Seq<Seq<char>>),
    AskConflicts(Seq<Seq<char>>),
    AskWorkingCopy,
    AskChanged(Seq<Seq<char>>),
    SnapshotTrunk(Seq<Seq<char>>),
    AskTrunkDirty(Seq<Seq<char>>),
    AskHygiene(HygieneView),
    Describe(Seq<Seq<char>>),
    Park(Seq<Seq<char>>),
    AskPinned(Seq<Seq<char>>),
    RunGate(Seq<char>),
    TakeLock,
    AskTargetAgain(Seq<Seq<char>>),
    AskHygieneAgain(HygieneView),
    AskLandedChanges(Seq<Seq<char>>),
    PrepareIntegration,
    AdvanceTrunk(Seq<Seq<char>>),
    AdvanceBookmark(Seq<Seq<char>>),
    Record(RevView),
    Finish(RevView),
}

impl View for LandStep {
    type V = LandStepView;

    open spec fn view(&self) -> LandStepView {
        match self {
            LandStep::Refuse(e) => LandStepView::Refuse(e@),
            LandStep::CheckLaneRoot => LandStepView::CheckLaneRoot,
            LandStep::SnapshotLane(r) => LandStepView::SnapshotLane(r@),
            LandStep::AskTarget(r) => LandStepView::AskTarget(r@),
            LandStep::AskSynced(r) => LandStepView::AskSynced(r@),
            LandStep::AskBehind(r) => LandStepView::AskBehind(r@),
            LandStep::AskConflicts(r) => LandStepView::AskConflicts(r@),
            LandStep::AskWorkingCopy => LandStepView::AskWorkingCopy,
            LandStep::AskChanged(r) => LandStepView::AskChanged(r@),
            LandStep::SnapshotTrunk(r) => LandStepView::SnapshotTrunk(r@),
            LandStep::AskTrunkDirty(r) => LandStepView::AskTrunkDirty(r@),
            LandStep::AskHygiene(r) => LandStepView::AskHygiene(r@),
            LandStep::Describe(r) => LandStepView::Describe(r@),
            LandStep::Park(r) => LandStepView::Park(r@),
            LandStep::AskPinned(r) => LandStepView::AskPinned(r@),
            LandStep::RunGate(command) => LandStepView::RunGate(command@),
            LandStep::TakeLock => LandStepView::TakeLock,
            LandStep::AskTargetAgain(r) => LandStepView::AskTargetAgain(r@),
            LandStep::AskHygieneAgain(r) => LandStepView::AskHygieneAgain(r@),
            LandStep::AskLandedChanges(r) => LandStepView::AskLandedChanges(r@),
            LandStep::PrepareIntegration => LandStepView::PrepareIntegration,
            LandStep::AdvanceTrunk(r) => LandStepView::AdvanceTrunk(r@),
            LandStep::AdvanceBookmark(r) => LandStepView::AdvanceBookmark(r@),
            LandStep::Record(rev) => LandStepView::Record(rev@),
            LandStep::Finish(rev) => LandStepView::Finish(rev@),
        }
    }
}

/// A landing: which lane, with which write-set, how.
pub struct LandCase {
    pub config: RepoConfig,
    pub current: Seq<char>,
    pub name: Seq<char>,
    pub write_set: Seq<Seq<char>>,
    pub request: LaneLandRequest,
}

impl LandCase {
    /// The lane's working copy in a revset.
    pub open spec fn symbol(self) -> Seq<char> {
        revset::workspace_symbol(self.name)
    }

    /// Lanes land into a bookmark.
    pub open spec fn bookmark_mode(self) -> bool {
        self.config.lane.target is Some
    }

    /// What the target is called.
    pub open spec fn target_name(self) -> Seq<char> {
        match self.config.lane.target {
            Some(bookmark) => bookmark@,
            None => self.config.lane.trunk@,
        }
    }

    /// The landing gate command that has to pass.
    pub open spec fn gate(self) -> Option<Seq<char>> {
        if self.request.no_gate {
            None
        } else {
            match self.request.gate_override {
                Some(command) => Some(command@),
                None => text::opt_view(self.config.lane.gate),
            }
        }
    }

    /// The head of a target that was looked up.
    pub open spec fn head(self, answer: TargetAnswer) -> std::result::Result<
        Seq<char>,
        error::ErrorView,
    > {
        lane_ops::target_head(
            self.config,
            answer.trunk_exists,
            jj_output::rev_views(answer.heads@),
        )
    }
}

// ---------------------------------------------------------------------------
// The head that lands

/// The lane has no work beyond the head.
pub open spec fn nothing_to_land(wc: WorkingCopy, head: Seq<char>) -> bool {
    wc.empty && wc.parents@.len() == 1 && wc.parents@[0].commit_id@ == head
}

/// The revision that has to be described before the lane can land.
pub open spec fn undescribed_head(wc: WorkingCopy) -> Option<Seq<char>> {
    if wc.empty {
        if wc.parents@.len() == 1 && wc.parents@[0].message@.len() == 0 {
            Some(wc.parents@[0].commit_id@)
        } else {
            None
        }
    } else if wc.message@.len() == 0 {
        Some("@"@)
    } else {
        None
    }
}

/// Why the lane's working copy cannot become a landed head.
pub open spec fn finalize_refusal(case: LandCase, wc: WorkingCopy) -> Option<error::ErrorView> {
    if wc.empty && wc.parents@.len() != 1 {
        Some(
            error::about2(
                ErrorKind::LaneTrunkNotReady,
                case.target_name(),
                "lane working copy has multiple parents"@,
            ),
        )
    } else if undescribed_head(wc) is Some && case.request.message is None {
        Some(error::about(ErrorKind::LaneNeedsMessage, case.name))
    } else {
        None
    }
}

// ---------------------------------------------------------------------------
// Hygiene

/// The requests that count what keeps `tip` from being published on `head`,
/// not counting `except` as undescribed.
pub open spec fn hygiene_args(
    head: Seq<char>,
    tip: Seq<char>,
    except: Option<Seq<char>>,
) -> HygieneView {
    let undescribed = "("@ + head + ".."@ + tip + ") & description(exact:\"\") ~ empty()"@;
    HygieneView {
        conflicts: jj::revisions_args("conflicts() & ::"@ + tip),
        divergent: jj::revisions_args("divergent() & ::"@ + tip),
        undescribed: jj::revisions_args(
            match except {
                Some(revision) => undescribed + " ~ "@ + revision,
                None => undescribed,
            },
        ),
    }
}

/// The revision, in the repo, that is about to be described.
pub open spec fn described_later(case: LandCase, wc: WorkingCopy) -> Option<Seq<char>> {
    match undescribed_head(wc) {
        Some(revision) => if wc.empty {
            Some(revision)
        } else {
            Some(case.symbol())
        },
        None => None,
    }
}

/// What keeps a head from being published.
pub open spec fn hygiene_problem(hygiene: Hygiene) -> Option<Seq<char>> {
    if hygiene.conflicts > 0 {
        Some(text::decimal(hygiene.conflicts as nat) + " conflicted commit(s) below the head"@)
    } else if hygiene.divergent > 0 {
        Some(text::decimal(hygiene.divergent as nat) + " divergent commit(s) below the head"@)
    } else if hygiene.undescribed > 0 {
        Some(
            text::decimal(hygiene.undescribed as nat)
                + " undescribed commit(s) in the landed range"@,
        )
    } else {
        None
    }
}

/// The refusal to publish a head.
pub open spec fn hygiene_refusal(case: LandCase, hygiene: Hygiene) -> Option<error::ErrorView> {
    match hygiene_problem(hygiene) {
        Some(reason) => Some(
            error::about2(ErrorKind::LaneTargetHygiene, case.target_name(), reason),
        ),
        None => None,
    }
}

// ---------------------------------------------------------------------------
// The steps

/// From the advance on: record, then ripple.
pub open spec fn land_advance(case: LandCase, facts: LandFacts, head: Seq<char>, tip: RevView) ->
    LandStepView {
    if facts.landed_changes is None {
        LandStepView::AskLandedChanges(
            jj::revisions_args(lane_ops::ahead_revset(head, tip.commit_id)),
        )
    } else if case.bookmark_mode() && !facts.integration_ready {
        LandStepView::PrepareIntegration
    } else if !facts.advanced {
        if case.bookmark_mode() {
            LandStepView::AdvanceBookmark(jj::bookmark_move_args(case.target_name(), tip.commit_id))
        } else {
            LandStepView::AdvanceTrunk(jj::rebase_source_args("@"@, tip.commit_id))
        }
    } else if !facts.recorded {
        LandStepView::Record(tip)
    } else {
        LandStepView::Finish(tip)
    }
}

/// Under the lock: the target must not have moved.
pub open spec fn land_locked(case: LandCase, facts: LandFacts, head: Seq<char>, tip: RevView) ->
    LandStepView {
    match facts.target_again {
        None => LandStepView::AskTargetAgain(
            jj::revisions_args(lane_ops::target_revset(case.config)),
        ),
        Some(answer) => match case.head(answer) {
            Err(e) => LandStepView::Refuse(e),
            Ok(found) => if found != head {
                LandStepView::Refuse(
                    error::about3(ErrorKind::LaneTrunkMoved, case.name, head, found),
                )
            } else if !case.bookmark_mode() {
                land_advance(case, facts, head, tip)
            } else {
                match facts.hygiene_again {
                    None => LandStepView::AskHygieneAgain(
                        hygiene_args(head, tip.commit_id, None),
                    ),
                    Some(hygiene) => match hygiene_refusal(case, hygiene) {
                        Some(e) => LandStepView::Refuse(e),
                        None => land_advance(case, facts, head, tip),
                    },
                }
            },
        },
    }
}

/// With the head pinned: the landing gate, then the lock.
pub open spec fn land_gate(case: LandCase, facts: LandFacts, head: Seq<char>, tip: RevView) ->
    LandStepView {
    if case.gate() is Some && facts.gate_passed is None {
        LandStepView::RunGate(case.gate()->0)
    } else if case.gate() is Some && facts.gate_passed == Some(false) {
        LandStepView::Refuse(error::about(ErrorKind::LaneGateFailed, case.gate()->0))
    } else if !facts.locked {
        LandStepView::TakeLock
    } else {
        land_locked(case, facts, head, tip)
    }
}

/// With every check passed: describe and park the work, and pin the head.
pub open spec fn land_finalize(
    case: LandCase,
    facts: LandFacts,
    head: Seq<char>,
    wc: WorkingCopy,
) -> LandStepView {
    if undescribed_head(wc) is Some && !facts.described {
        LandStepView::Describe(
            jj::describe_args(
                undescribed_head(wc)->0,
                match case.request.message {
                    Some(message) => message@,
                    None => Seq::empty(),
                },
            ),
        )
    } else if !wc.empty && !facts.parked {
        LandStepView::Park(jj::new_working_copy_args("@"@))
    } else {
        match facts.pinned {
            None => LandStepView::AskPinned(jj::revisions_args("parents(@)"@)),
            Some(parents) => if parents@.len() != 1 {
                LandStepView::Refuse(error::about(ErrorKind::LaneWorkspaceMissing, case.name))
            } else {
                land_gate(case, facts, head, parents@[0]@)
            },
        }
    }
}

/// The checks of the head that is about to land.
pub open spec fn land_head_checks(
    case: LandCase,
    facts: LandFacts,
    head: Seq<char>,
    wc: WorkingCopy,
) -> LandStepView {
    match finalize_refusal(case, wc) {
        Some(e) => LandStepView::Refuse(e),
        None => if !case.bookmark_mode() {
            land_finalize(case, facts, head, wc)
        } else {
            match facts.hygiene {
                None => LandStepView::AskHygiene(
                    hygiene_args(head, case.symbol(), described_later(case, wc)),
                ),
                Some(hygiene) => match hygiene_refusal(case, hygiene) {
                    Some(e) => LandStepView::Refuse(e),
                    None => land_finalize(case, facts, head, wc),
                },
            }
        },
    }
}

/// The checks of the trunk's working copy: dirt inside the write-set would
/// silently merge with the landing; other dirt does not matter, and neither
/// does any where lanes land into a bookmark.
pub open spec fn land_trunk_checks(
    case: LandCase,
    facts: LandFacts,
    head: Seq<char>,
    wc: WorkingCopy,
) -> LandStepView {
    if case.bookmark_mode() {
        land_head_checks(case, facts, head, wc)
    } else if !facts.trunk_snapshot {
        LandStepView::SnapshotTrunk(jj::snapshot_args())
    } else {
        match facts.trunk_dirty {
            None => LandStepView::AskTrunkDirty(
                jj::changed_paths_in_args(revset::workspace_symbol(case.config.lane.trunk@)),
            ),
            Some(dirty) => {
                let inside = text::views(dirty@).filter(lane_rules::inside(case.write_set));
                if inside.len() > 0 {
                    LandStepView::Refuse(
                        error::about2(
                            ErrorKind::LaneTrunkDirtyInScope,
                            case.name,
                            text::join(inside, "\n"@),
                        ),
                    )
                } else {
                    land_head_checks(case, facts, head, wc)
                }
            },
        }
    }
}

/// The checks of the lane itself.
pub open spec fn land_lane_checks(case: LandCase, facts: LandFacts, head: Seq<char>) ->
    LandStepView {
    match facts.synced {
        None => LandStepView::AskSynced(
            jj::revisions_args(jj::ancestor_revset(head, case.symbol())),
        ),
        Some(false) => match facts.behind {
            None => LandStepView::AskBehind(
                jj::revisions_args(lane_ops::behind_revset(head, case.symbol())),
            ),
            Some(behind) => LandStepView::Refuse(
                error::about2(ErrorKind::LaneNotSynced, case.name, text::decimal(behind as nat)),
            ),
        },
        Some(true) => match facts.conflicts {
            None => LandStepView::AskConflicts(
                jj::revisions_args(lane_ops::range_conflicts_revset(head, case.symbol())),
            ),
            Some(conflicts) => if conflicts > 0 {
                LandStepView::Refuse(
                    error::about2(
                        ErrorKind::LaneConflicted,
                        case.name,
                        text::decimal(conflicts as nat),
                    ),
                )
            } else {
                match facts.working_copy {
                    None => LandStepView::AskWorkingCopy,
                    Some(wc) => if nothing_to_land(wc, head) {
                        LandStepView::Refuse(
                            error::about(ErrorKind::LaneNothingToLand, case.name),
                        )
                    } else {
                        match facts.changed {
                            None => LandStepView::AskChanged(
                                jj::changed_paths_args(head, case.symbol()),
                            ),
                            Some(changed) => {
                                let outside = text::views(changed@).filter(
                                    lane_rules::outside(case.write_set),
                                );
                                if outside.len() > 0 && !case.request.allow_unscoped {
                                    LandStepView::Refuse(
                                        error::about2(
                                            ErrorKind::LaneUnscopedChanges,
                                            case.name,
                                            text::join(outside, "\n"@),
                                        ),
                                    )
                                } else {
                                    land_trunk_checks(case, facts, head, wc)
                                }
                            },
                        }
                    },
                }
            },
        },
    }
}

/// The next step of landing an open lane.
pub open spec fn land_next(case: LandCase, facts: LandFacts) -> LandStepView {
    if case.request.close && case.name == case.current {
        LandStepView::Refuse(error::about(ErrorKind::LaneCloseFromInside, case.name))
    } else {
        match facts.lane_root {
            None => LandStepView::CheckLaneRoot,
            Some(false) => LandStepView::Refuse(
                error::about(ErrorKind::LaneWorkspaceMissing, case.name),
            ),
            Some(true) => if !facts.lane_snapshot {
                LandStepView::SnapshotLane(jj::snapshot_args())
            } else {
                match facts.target {
                    None => LandStepView::AskTarget(
                        jj::revisions_args(lane_ops::target_revset(case.config)),
                    ),
                    Some(answer) => match case.head(answer) {
                        Err(e) => LandStepView::Refuse(e),
                        Ok(head) => land_lane_checks(case, facts, head),
                    },
                }
            },
        }
    }
}

// ---------------------------------------------------------------------------
// Deciding the next step

fn copy_rev(rev: &LaneRev) -> (res: LaneRev)
    ensures
        res@ == rev@,
{
    LaneRev {
        commit_id: copy(rev.commit_id.as_str()),
        change_id: copy(rev.change_id.as_str()),
        message: copy(rev.message.as_str()),
    }
}

fn hygiene_requests(head: &str, tip: &str, except: &Option<String>) -> (res: HygieneRequests)
    ensures
        res@ == hygiene_args(head@, tip@, text::opt_view(*except)),
{
    let mut undescribed = cat5(
        "(",
        head,
        "..",
        tip,
        ") & description(exact:\"\") ~ empty()",
    );
    if let Some(revision) = except {
        undescribed.append(" ~ ");
        undescribed.append(revision.as_str());
    }
    HygieneRequests {
        conflicts: JjRequest::revisions(cat2("conflicts() & ::", tip).as_str()),
        divergent: JjRequest::revisions(cat2("divergent() & ::", tip).as_str()),
        undescribed: JjRequest::revisions(undescribed.as_str()),
    }
}

fn hygiene_reason(hygiene: &Hygiene) -> (res: Option<String>)
    ensures
        text::opt_view(res) == hygiene_problem(*hygiene),
{
    if hygiene.conflicts > 0 {
        Some(
            cat2(
                size_number(hygiene.conflicts).as_str(),
                " conflicted commit(s) below the head",
            ),
        )
    } else if hygiene.divergent > 0 {
        Some(
            cat2(
                size_number(hygiene.divergent).as_str(),
                " divergent commit(s) below the head",
            ),
        )
    } else if hygiene.undescribed > 0 {
        Some(
            cat2(
                size_number(hygiene.undescribed).as_str(),
                " undescribed commit(s) in the landed range",
            ),
        )
    } else {
        None
    }
}

fn head_to_describe(wc: &WorkingCopy) -> (res: Option<String>)
    ensures
        text::opt_view(res) == undescribed_head(*wc),
{
    if wc.empty {
        if wc.parents.len() == 1 && char_count(wc.parents[0].message.as_str()) == 0 {
            Some(copy(wc.parents[0].commit_id.as_str()))
        } else {
            None
        }
    } else if char_count(wc.message.as_str()) == 0 {
        Some(copy("@"))
    } else {
        None
    }
}

impl NaviWorkspace {
    /// The landing of a lane from this workspace.
    pub open spec fn land_case(
        self,
        name: Seq<char>,
        write_set: Seq<Seq<char>>,
        request: LaneLandRequest,
    ) -> LandCase {
        LandCase {
            config: self.config,
            current: self.workspace_name@,
            name,
            write_set,
            request,
        }
    }

    fn landing_target(&self) -> (res: String)
        ensures
            res@ == (match self.config.lane.target {
                Some(bookmark) => bookmark@,
                None => self.config.lane.trunk@,
            }),
    {
        match &self.config.lane.target {
            Some(bookmark) => copy(bookmark.as_str()),
            None => copy(self.config.lane.trunk.as_str()),
        }
    }

    /// The command that a landing has to pass: none where it is skipped,
    /// else the one of the request, else the configured one.
    pub fn landing_gate(&self, request: &LaneLandRequest) -> (res: Option<String>)
        ensures
            text::opt_view(res) == (if request.no_gate {
                None
            } else {
                match request.gate_override {
                    Some(command) => Some(command@),
                    None => text::opt_view(self.config.lane.gate),
                }
            }),
    {
        if request.no_gate {
            None
        } else {
            match &request.gate_override {
                Some(command) => Some(copy(command.as_str())),
                None => text::copy_opt(&self.config.lane.gate),
            }
        }
    }

    fn step_advance(
        &self,
        record: &LaneRecord,
        request: &LaneLandRequest,
        facts: &LandFacts,
        head: &str,
        tip: &LaneRev,
    ) -> (res: LandStep)
        ensures
            res@ == land_advance(
                self.land_case(record.name@, record@.paths, *request),
                *facts,
                head@,
                tip@,
            ),
    {
        let bookmark_mode = self.config.lane.target.is_some();
        let target = self.landing_target();
        if facts.landed_changes.is_none() {
            LandStep::AskLandedChanges(ahead_request(head, tip.commit_id.as_str()))
        } else if bookmark_mode && !facts.integration_ready {
            LandStep::PrepareIntegration
        } else if !facts.advanced {
            if bookmark_mode {
                LandStep::AdvanceBookmark(
                    JjRequest::bookmark_move(target.as_str(), tip.commit_id.as_str()),
                )
            } else {
                LandStep::AdvanceTrunk(JjRequest::rebase_source("@", tip.commit_id.as_str()))
            }
        } else if !facts.recorded {
            LandStep::Record(copy_rev(tip))
        } else {
            LandStep::Finish(copy_rev(tip))
        }
    }

    fn step_locked(
        &self,
        record: &LaneRecord,
        request: &LaneLandRequest,
        facts: &LandFacts,
        head: &str,
        tip: &LaneRev,
    ) -> (res: LandStep)
        ensures
            res@ == land_locked(
                self.land_case(record.name@, record@.paths, *request),
                *facts,
                head@,
                tip@,
            ),
    {
        match &facts.target_again {
            None => LandStep::AskTargetAgain(self.target_request()),
            Some(answer) => match self.resolve_target(answer.trunk_exists, &answer.heads) {
                Err(e) => LandStep::Refuse(e),
                Ok(found) => {
                    if !same(found.as_str(), head) {
                        return LandStep::Refuse(
                            Error::LaneTrunkMoved {
                                lane: copy(record.name.as_str()),
                                expected: copy(head),
                                found,
                            },
                        );
                    }
                    if self.config.lane.target.is_none() {
                        return self.step_advance(record, request, facts, head, tip);
                    }
                    match &facts.hygiene_again {
                        None => LandStep::AskHygieneAgain(
                            hygiene_requests(head, tip.commit_id.as_str(), &None),
                        ),
                        Some(hygiene) => match hygiene_reason(hygiene) {
                            Some(reason) => LandStep::Refuse(
                                Error::LaneTargetHygiene { target: self.landing_target(), reason },
                            ),
                            None => self.step_advance(record, request, facts, head, tip),
                        },
                    }
                },
            },
        }
    }

    fn step_gate(
        &self,
        record: &LaneRecord,
        request: &LaneLandRequest,
        facts: &LandFacts,
        head: &str,
        tip: &LaneRev,
    ) -> (res: LandStep)
        ensures
            res@ == land_gate(
                self.land_case(record.name@, record@.paths, *request),
                *facts,
                head@,
                tip@,
            ),
    {
        if let Some(command) = self.landing_gate(request) {
            match facts.gate_passed {
                None => {
                    return LandStep::RunGate(command);
                },
                Some(false) => {
                    return LandStep::Refuse(Error::LaneGateFailed { command });
                },
                Some(true) => {},
            }
        }
        if !facts.locked {
            LandStep::TakeLock
        } else {
            self.step_locked(record, request, facts, head, tip)
        }
    }

    fn step_finalize(
        &self,
        record: &LaneRecord,
        request: &LaneLandRequest,
        facts: &LandFacts,
        head: &str,
        wc: &WorkingCopy,
    ) -> (res: LandStep)
        ensures
            res@ == land_finalize(
                self.land_case(record.name@, record@.paths, *request),
                *facts,
                head@,
                *wc,
            ),
    {
        if let Some(revision) = head_to_describe(wc) {
            if !facts.described {
                let message = match &request.message {
                    Some(message) => copy(message.as_str()),
                    None => String::new(),
                };
                return LandStep::Describe(
                    JjRequest::describe(revision.as_str(), message.as_str()),
                );
            }
        }
        if !wc.empty && !facts.parked {
            return LandStep::Park(JjRequest::new_working_copy("@"));
        }
        match &facts.pinned {
            None => LandStep::AskPinned(JjRequest::revisions("parents(@)")),
            Some(parents) => {
                if parents.len() != 1 {
                    LandStep::Refuse(Error::LaneWorkspaceMissing(copy(record.name.as_str())))
                } else {
                    self.step_gate(record, request, facts, head, &parents[0])
                }
            },
        }
    }

    fn step_head_checks(
        &self,
        record: &LaneRecord,
        request: &LaneLandRequest,
        facts: &LandFacts,
        head: &str,
        wc: &WorkingCopy,
    ) -> (res: LandStep)
        ensures
            res@ == land_head_checks(
                self.land_case(record.name@, record@.paths, *request),
                *facts,
                head@,
                *wc,
            ),
    {
        if wc.empty && wc.parents.len() != 1 {
            return LandStep::Refuse(
                Error::LaneTrunkNotReady {
                    trunk: self.landing_target(),
                    reason: copy("lane working copy has multiple parents"),
                },
            );
        }
        let to_describe = head_to_describe(wc);
        if to_describe.is_some() && request.message.is_none() {
            return LandStep::Refuse(Error::LaneNeedsMessage(copy(record.name.as_str())));
        }
        if self.config.lane.target.is_none() {
            return self.step_finalize(record, request, facts, head, wc);
        }
        match &facts.hygiene {
            None => {
                let symbol = workspace_revset_symbol(&record.name);
                let except = match to_describe {
                    Some(revision) => {
                        if wc.empty {
                            Some(revision)
                        } else {
                            Some(copy(symbol.as_str()))
                        }
                    },
                    None => None,
                };
                LandStep::AskHygiene(hygiene_requests(head, symbol.as_str(), &except))
            },
            Some(hygiene) => match hygiene_reason(hygiene) {
                Some(reason) => LandStep::Refuse(
                    Error::LaneTargetHygiene { target: self.landing_target(), reason },
                ),
                None => self.step_finalize(record, request, facts, head, wc),
            },
        }
    }

    fn step_trunk_checks(
        &self,
        record: &LaneRecord,
        request: &LaneLandRequest,
        facts: &LandFacts,
        head: &str,
        wc: &WorkingCopy,
    ) -> (res: LandStep)
        ensures
            res@ == land_trunk_checks(
                self.land_case(record.name@, record@.paths, *request),
                *facts,
                head@,
                *wc,
            ),
    {
        if self.config.lane.target.is_some() {
            return self.step_head_checks(record, request, facts, head, wc);
        }
        if !facts.trunk_snapshot {
            return LandStep::SnapshotTrunk(JjRequest::snapshot());
        }
        match &facts.trunk_dirty {
            None => {
                let symbol = workspace_revset_symbol(&self.config.lane.trunk);
                LandStep::AskTrunkDirty(JjRequest::changed_paths_in(symbol.as_str()))
            },
            Some(dirty) => {
                let inside = scoped_paths(dirty, &record.paths);
                assert(text::views(inside@).len() == inside@.len());
                if inside.len() > 0 {
                    LandStep::Refuse(
                        Error::LaneTrunkDirtyInScope {
                            lane: copy(record.name.as_str()),
                            paths: joined(&inside, "\n"),
                        },
                    )
                } else {
                    self.step_head_checks(record, request, facts, head, wc)
                }
            },
        }
    }

    fn step_lane_checks(
        &self,
        record: &LaneRecord,
        request: &LaneLandRequest,
        facts: &LandFacts,
        head: &str,
    ) -> (res: LandStep)
        ensures
            res@ == land_lane_checks(
                self.land_case(record.name@, record@.paths, *request),
                *facts,
                head@,
            ),
    {
        let symbol = workspace_revset_symbol(&record.name);
        match facts.synced {
            None => {
                return LandStep::AskSynced(JjRequest::is_ancestor(head, symbol.as_str()));
            },
            Some(false) => {
                return match facts.behind {
                    None => LandStep::AskBehind(behind_request(head, symbol.as_str())),
                    Some(behind) => LandStep::Refuse(
                        Error::LaneNotSynced { lane: copy(record.name.as_str()), behind },
                    ),
                };
            },
            Some(true) => {},
        }
        match facts.conflicts {
            None => {
                return LandStep::AskConflicts(range_conflicts_request(head, symbol.as_str()));
            },
            Some(count) => {
                if count > 0 {
                    return LandStep::Refuse(
                        Error::LaneConflicted { lane: copy(record.name.as_str()), count },
                    );
                }
            },
        }
        let wc = match &facts.working_copy {
            None => {
                return LandStep::AskWorkingCopy;
            },
            Some(wc) => wc,
        };
        if wc.empty && wc.parents.len() == 1 && same(wc.parents[0].commit_id.as_str(), head) {
            return LandStep::Refuse(Error::LaneNothingToLand(copy(record.name.as_str())));
        }
        match &facts.changed {
            None => LandStep::AskChanged(JjRequest::changed_paths(head, symbol.as_str())),
            Some(changed) => {
                let outside = unscoped_paths(changed, &record.paths);
                assert(text::views(outside@).len() == outside@.len());
                if outside.len() > 0 && !request.allow_unscoped {
                    LandStep::Refuse(
                        Error::LaneUnscopedChanges {
                            lane: copy(record.name.as_str()),
                            paths: joined(&outside, "\n"),
                        },
                    )
                } else {
                    self.step_trunk_checks(record, request, facts, head, wc)
                }
            },
        }
    }

    /// The next step of landing a lane. A lane that is not registered or not
    /// open does not land.
    pub fn lane_land(
        &self,
        store: &LaneStore,
        name: &WorkspaceName,
        request: &LaneLandRequest,
        facts: &LandFacts,
    ) -> (res: LandStep)
        ensures
            match lane_rules::lane_refusal(store.records@, name@) {
                Some(refusal) => res@ == LandStepView::Refuse(refusal),
                None => crate::lane_store::position_of(store.records@, name@) matches Some(i)
                    && res@ == land_next(
                    self.land_case(name@, store.records@[i]@.paths, *request),
                    *facts,
                ),
            },
    {
        let record = match require_open_lane(store, name) {
            Err(e) => {
                return LandStep::Refuse(e);
            },
            Ok(record) => record,
        };
        proof {
            crate::lane_store::lemma_position_in_range(store.records@, name@, 0);
        }
        if request.close && name.same_as(&self.workspace_name) {
            return LandStep::Refuse(Error::LaneCloseFromInside(copy(name.as_str())));
        }
        match facts.lane_root {
            None => {
                return LandStep::CheckLaneRoot;
            },
            Some(false) => {
                return LandStep::Refuse(Error::LaneWorkspaceMissing(copy(name.as_str())));
            },
            Some(true) => {},
        }
        if !facts.lane_snapshot {
            return LandStep::SnapshotLane(JjRequest::snapshot());
        }
        match &facts.target {
            None => LandStep::AskTarget(self.target_request()),
            Some(answer) => match self.resolve_target(answer.trunk_exists, &answer.heads) {
                Err(e) => LandStep::Refuse(e),
                Ok(head) => self.step_lane_checks(record, request, facts, head.as_str()),
            },
        }
    }
}

// ---------------------------------------------------------------------------
// What a landing guarantees

/// Every check that a landing makes before it touches anything has passed: the
/// lane is on the target head and without conflicts, it has work, that work is
/// inside the write-set or allowed outside it, the trunk has no dirt inside the
/// write-set, the head is or can be described, and a bookmark would get clean
/// history.
pub open spec fn checks_passed(case: LandCase, facts: LandFacts) -> bool {
    &&& !(case.request.close && case.name == case.current)
    &&& facts.lane_root == Some(true)
    &&& facts.lane_snapshot
    &&& facts.synced == Some(true)
    &&& facts.conflicts == Some(0usize)
    &&& facts.target matches Some(answer) && (case.head(answer) matches Ok(head) && (
    facts.working_copy matches Some(wc) && !nothing_to_land(wc, head) && finalize_refusal(
        case,
        wc,
    ) is None))
    &&& facts.changed matches Some(changed) && (case.request.allow_unscoped || forall|i: int|
        0 <= i < changed@.len() ==> lane_rules::in_scope(
            #[trigger] text::views(changed@)[i],
            case.write_set,
        ))
    &&& !case.bookmark_mode() ==> (facts.trunk_dirty matches Some(dirty) && forall|i: int|
        0 <= i < dirty@.len() ==> !lane_rules::in_scope(
            #[trigger] text::views(dirty@)[i],
            case.write_set,
        ))
    &&& case.bookmark_mode() ==> (facts.hygiene matches Some(hygiene) && hygiene_problem(
        hygiene,
    ) is None)
}

/// The step changes the lane, the lock or the target.
pub open spec fn is_change(step: LandStepView) -> bool {
    ||| step is Describe
    ||| step is Park
    ||| step is RunGate
    ||| step is TakeLock
    ||| step is PrepareIntegration
    ||| advances(step)
    ||| step is Record
    ||| step is Finish
}

/// The step advances the target.
pub open spec fn advances(step: LandStepView) -> bool {
    step is AdvanceTrunk || step is AdvanceBookmark
}

/// The step comes after the target was advanced.
pub open spec fn is_past_advance(step: LandStepView) -> bool {
    step is Record || step is Finish
}

proof fn lemma_none_inside(paths: Seq<Seq<char>>, write_set: Seq<Seq<char>>)
    requires
        paths.filter(lane_rules::inside(write_set)).len() == 0,
    ensures
        forall|i: int|
            0 <= i < paths.len() ==> !lane_rules::in_scope(#[trigger] paths[i], write_set),
{
    let keep = lane_rules::inside(write_set);
    assert forall|i: int| 0 <= i < paths.len() implies !lane_rules::in_scope(
        #[trigger] paths[i],
        write_set,
    ) by {
        if lane_rules::in_scope(paths[i], write_set) {
            paths.lemma_filter_contains(keep, i);
            let k = choose|k: int| 0 <= k < paths.filter(keep).len() && paths.filter(keep)[k]
                == paths[i];
        }
    }
}

proof fn lemma_filter_inside_empty(paths: Seq<Seq<char>>, write_set: Seq<Seq<char>>)
    requires
        forall|i: int|
            0 <= i < paths.len() ==> !lane_rules::in_scope(#[trigger] paths[i], write_set),
    ensures
        paths.filter(lane_rules::inside(write_set)).len() == 0,
{
    let keep = lane_rules::inside(write_set);
    let left = paths.filter(keep);
    if left.len() > 0 {
        paths.lemma_filter_pred(keep, 0);
        assert(left.contains(left[0]));
        paths.lemma_filter_contains_rev(keep, left[0]);
        let i = choose|i: int| 0 <= i < paths.len() && paths[i] == left[0];
        assert(!lane_rules::in_scope(paths[i], write_set));
    }
}

/// A lane that passes every check, whose gate passes and whose target stays
/// put, lands: once each step was taken, nothing is left but the ripple.
pub proof fn law_landing_completes(case: LandCase, facts: LandFacts)
    requires
        checks_passed(case, facts),
        facts.trunk_snapshot,
        facts.described,
        facts.parked,
        facts.pinned matches Some(parents) && parents@.len() == 1,
        case.gate() is Some ==> facts.gate_passed == Some(true),
        facts.locked,
        facts.target_again matches Some(again) && case.head(again) == case.head(facts.target->0),
        case.bookmark_mode() ==> (facts.hygiene_again matches Some(hygiene) && hygiene_problem(
            hygiene,
        ) is None),
        facts.landed_changes is Some,
        facts.integration_ready,
        facts.advanced,
        facts.recorded,
    ensures
        land_next(case, facts) == LandStepView::Finish(facts.pinned->0@[0]@),
{
    let changed = facts.changed->0;
    assert(text::views(changed@).len() == changed@.len());
    lane_rules::law_no_unscoped_paths(text::views(changed@), case.write_set);
    if !case.bookmark_mode() {
        let dirty = facts.trunk_dirty->0;
        assert(text::views(dirty@).len() == dirty@.len());
        lemma_filter_inside_empty(text::views(dirty@), case.write_set);
    }
}

/// A landing that is refused leaves nothing behind: nothing is described,
/// parked, gated, locked or moved before every check has passed.
pub proof fn law_checks_come_first(case: LandCase, facts: LandFacts)
    ensures
        is_change(land_next(case, facts)) ==> checks_passed(case, facts),
{
    if is_change(land_next(case, facts)) {
        let changed = facts.changed->0;
        lane_rules::law_no_unscoped_paths(text::views(changed@), case.write_set);
        assert(text::views(changed@).len() == changed@.len());
        if !case.bookmark_mode() {
            let dirty = facts.trunk_dirty->0;
            lemma_none_inside(text::views(dirty@), case.write_set);
            assert(text::views(dirty@).len() == dirty@.len());
        }
    }
}

/// The target is advanced only under the lock, to the one pinned head, after
/// the landing gate passed, and only where it is still what the landing was checked
/// against.
pub proof fn law_advance_is_safe(case: LandCase, facts: LandFacts)
    ensures
        (advances(land_next(case, facts)) || is_past_advance(land_next(case, facts))) ==> {
            &&& checks_passed(case, facts)
            &&& facts.locked
            &&& case.gate() is Some ==> facts.gate_passed == Some(true)
            &&& facts.pinned matches Some(parents) && parents@.len() == 1
            &&& facts.target_again matches Some(again) && case.head(again) == case.head(
                facts.target->0,
            )
            &&& case.bookmark_mode() ==> (facts.hygiene_again matches Some(hygiene)
                && hygiene_problem(hygiene) is None)
        },
{
    law_checks_come_first(case, facts);
}

/// Two landings cannot clobber each other: where the target was moved since the
/// landing was checked, the landing is refused, whatever else is known.
pub proof fn law_moved_target_is_refused(case: LandCase, facts: LandFacts)
    requires
        facts.target matches Some(answer) && (facts.target_again matches Some(again)
            && case.head(again) != case.head(answer)),
    ensures
        !advances(land_next(case, facts)),
        !is_past_advance(land_next(case, facts)),
{
    law_advance_is_safe(case, facts);
}

/// A gate that failed stops the landing before the lock is taken.
pub proof fn law_failed_gate_stops(case: LandCase, facts: LandFacts)
    requires
        case.gate() is Some,
        facts.gate_passed == Some(false),
    ensures
        ({
            let step = land_next(case, facts);
            !(step is TakeLock) && !(step is PrepareIntegration) && !advances(step)
                && !is_past_advance(step)
        }),
{
}

/// The landing gate runs on a pinned head, so that what it leaves in the working copy
/// does not land, and the lock is not taken before it passed.
pub proof fn law_gate_runs_on_pinned_head(case: LandCase, facts: LandFacts)
    ensures
        land_next(case, facts) is RunGate ==> facts.pinned is Some,
        land_next(case, facts) is TakeLock ==> facts.pinned is Some && (case.gate() is Some
            ==> facts.gate_passed == Some(true)),
{
}

/// Landing into a bookmark touches no working copy but the lane's own: the
/// trunk's is neither snapshotted nor moved, and the advance moves the bookmark
/// to the pinned head.
pub proof fn law_bookmark_landing_moves_only_the_bookmark(case: LandCase, facts: LandFacts)
    requires
        case.bookmark_mode(),
    ensures
        ({
            let step = land_next(case, facts);
            &&& !(step is SnapshotTrunk)
            &&& !(step is AskTrunkDirty)
            &&& !(step is AdvanceTrunk)
            &&& step matches LandStepView::AdvanceBookmark(args) ==> (facts.pinned matches Some(
                parents,
            ) && args == jj::bookmark_move_args(case.target_name(), parents@[0].commit_id@))
        }),
{
}

/// The registry is touched only once the target was advanced.
pub proof fn law_record_follows_advance(case: LandCase, facts: LandFacts)
    ensures
        is_past_advance(land_next(case, facts)) ==> facts.advanced,
        land_next(case, facts) is Finish ==> facts.recorded,
{
}

// ---------------------------------------------------------------------------
// What a landing asks and says

/// The head of the target that the landing was checked against.
pub open spec fn checked_head(case: LandCase, facts: LandFacts, head: Seq<char>) -> bool {
    facts.target matches Some(answer) && case.head(answer) == Ok::<Seq<char>, error::ErrorView>(head)
}

/// The pinned head.
pub open spec fn is_pinned(facts: LandFacts, tip: RevView) -> bool {
    facts.pinned matches Some(parents) && parents@.len() == 1 && parents@[0]@ == tip
}

/// Each question about the lane is put to jj so that the answer is about the
/// lane and the head: whether the head is an ancestor of the lane, what the
/// head has and the lane lacks, conflicted commits that the lane has and the
/// head lacks, the changes from the head to the lane, and the dirt of the
/// trunk's working copy. Each is asked only while its answer is not known.
pub proof fn law_landing_asks_about_lane_and_head(case: LandCase, facts: LandFacts)
    ensures
        ({
            let lane = revset::quoted(case.name) + "@"@;
            let trunk = revset::quoted(case.config.lane.trunk@) + "@"@;
            let step = land_next(case, facts);
            &&& step matches LandStepView::AskTarget(args) ==> facts.target is None && args
                == jj::revisions_args(
                match case.config.lane.target {
                    Some(bookmark) => "present("@ + revset::quoted(bookmark@) + ")"@,
                    None => "parents("@ + trunk + ")"@,
                },
            )
            &&& step matches LandStepView::AskSynced(args) ==> facts.synced is None && exists|
                head: Seq<char>,
            | #[trigger]
                checked_head(case, facts, head) && args == jj::revisions_args(
                    "("@ + head + ") & ::("@ + lane + ")"@,
                )
            &&& step matches LandStepView::AskBehind(args) ==> facts.behind is None && exists|
                head: Seq<char>,
            | #[trigger]
                checked_head(case, facts, head) && args == jj::revisions_args(
                    "::"@ + head + " ~ ::"@ + lane,
                )
            &&& step matches LandStepView::AskConflicts(args) ==> facts.conflicts is None && exists|
                head: Seq<char>,
            | #[trigger]
                checked_head(case, facts, head) && args == jj::revisions_args(
                    "conflicts() & ("@ + head + ".."@ + lane + ")"@,
                )
            &&& step matches LandStepView::AskChanged(args) ==> facts.changed is None && exists|
                head: Seq<char>,
            | #[trigger]
                checked_head(case, facts, head) && args.contains("--summary"@) && args.len() == 7
                    && args[3] == "--from"@ && args[4] == head && args[5] == "--to"@ && args[6]
                    == lane
            &&& step matches LandStepView::AskTrunkDirty(args) ==> facts.trunk_dirty is None
                && args.contains("--summary"@) && args.len() == 5 && args[3] == "-r"@ && args[4]
                == trunk
            &&& step is AskWorkingCopy ==> facts.working_copy is None
            &&& step is CheckLaneRoot ==> facts.lane_root is None
        }),
{
    let step = land_next(case, facts);
    if let Some(answer) = facts.target {
        if let Ok(head) = case.head(answer) {
            assert(checked_head(case, facts, head));
        }
    }
    if let LandStepView::AskChanged(args) = step {
        assert(args[2] == "--summary"@);
    }
    if let LandStepView::AskTrunkDirty(args) = step {
        assert(args[2] == "--summary"@);
    }
}

/// What a landing does, it does to the head that it pinned: the work is
/// described with the message that was given, at the working copy or, where that
/// is empty, at its parent; the changes that land are counted from the checked
/// head to the pinned one; the trunk's working copy or the bookmark is moved to
/// the pinned head, and that head is recorded and rippled.
pub proof fn law_landing_acts_on_the_pinned_head(case: LandCase, facts: LandFacts)
    ensures
        ({
            let step = land_next(case, facts);
            &&& step matches LandStepView::Describe(args) ==> !facts.described && (
            case.request.message matches Some(message) && (facts.working_copy matches Some(wc)
                && args.len() == 5 && args[0] == "describe"@ && args[1] == "-r"@ && args[3] == "-m"@
                && args[4] == message@ && args[2] == (if wc.empty {
                wc.parents@[0].commit_id@
            } else {
                "@"@
            })))
            &&& step matches LandStepView::Park(args) ==> !facts.parked && (
            facts.working_copy matches Some(wc) && !wc.empty && args.len() == 2 && args[0]
                == "new"@ && args[1] == "@"@)
            &&& step matches LandStepView::AskPinned(args) ==> facts.pinned is None && args
                == jj::revisions_args("parents(@)"@)
            &&& step matches LandStepView::RunGate(command) ==> facts.gate_passed is None
                && !case.request.no_gate && (match case.request.gate_override {
                Some(given) => command == given@,
                None => case.config.lane.gate matches Some(configured) && command == configured@,
            })
            &&& step matches LandStepView::AskTargetAgain(args) ==> facts.target_again is None
                && args == jj::revisions_args(
                match case.config.lane.target {
                    Some(bookmark) => "present("@ + revset::quoted(bookmark@) + ")"@,
                    None => "parents("@ + (revset::quoted(case.config.lane.trunk@) + "@"@) + ")"@,
                },
            )
            &&& step matches LandStepView::AskLandedChanges(args) ==> facts.landed_changes is None
                && exists|head: Seq<char>, tip: RevView|
                #![trigger checked_head(case, facts, head), is_pinned(facts, tip)]
                checked_head(case, facts, head) && is_pinned(facts, tip) && args
                    == jj::revisions_args("("@ + head + ".."@ + tip.commit_id + ") ~ empty()"@)
            &&& step matches LandStepView::AdvanceTrunk(args) ==> !facts.advanced && exists|
                tip: RevView,
            | #[trigger]
                is_pinned(facts, tip) && args.len() == 5 && args[0] == "rebase"@ && args[1]
                    == "-s"@ && args[2] == "@"@ && args[3] == "-d"@ && args[4] == tip.commit_id
            &&& step matches LandStepView::AdvanceBookmark(args) ==> !facts.advanced && (
            case.config.lane.target matches Some(bookmark) && exists|tip: RevView| #[trigger]
                is_pinned(facts, tip) && args.len() == 5 && args[0] == "bookmark"@ && args[1]
                    == "move"@ && args[2] == bookmark@ && args[3] == "--to"@ && args[4]
                    == tip.commit_id)
            &&& step matches LandStepView::Record(tip) ==> !facts.recorded && is_pinned(facts, tip)
            &&& step matches LandStepView::Finish(tip) ==> is_pinned(facts, tip)
            &&& step is PrepareIntegration ==> !facts.integration_ready && case.config.lane.target is Some
            &&& step is TakeLock ==> !facts.locked
        }),
{
    let step = land_next(case, facts);
    if let Some(answer) = facts.target {
        if let Ok(head) = case.head(answer) {
            assert(checked_head(case, facts, head));
        }
    }
    if let Some(parents) = facts.pinned {
        if parents@.len() == 1 {
            assert(is_pinned(facts, parents@[0]@));
        }
    }
}

/// What keeps history from being published is looked for below what would land:
/// below the lane before anything is done, where the revision that the landing
/// itself is about to describe does not count as undescribed, and below the
/// pinned head under the lock, where nothing is left out.
pub proof fn law_hygiene_is_asked_below_what_lands(case: LandCase, facts: LandFacts)
    ensures
        ({
            let lane = revset::quoted(case.name) + "@"@;
            let step = land_next(case, facts);
            &&& step matches LandStepView::AskHygiene(asked) ==> case.config.lane.target is Some
                && facts.hygiene is None && (facts.working_copy matches Some(wc) && exists|
                head: Seq<char>,
            | #[trigger]
                checked_head(case, facts, head) && asked.conflicts == jj::revisions_args(
                    "conflicts() & ::"@ + lane,
                ) && asked.divergent == jj::revisions_args("divergent() & ::"@ + lane)
                    && asked.undescribed == jj::revisions_args(
                    "("@ + head + ".."@ + lane + ") & description(exact:\"\") ~ empty()"@ + (if wc.empty
                        && wc.parents@[0].message@.len() == 0 {
                        " ~ "@ + wc.parents@[0].commit_id@
                    } else if !wc.empty && wc.message@.len() == 0 {
                        " ~ "@ + lane
                    } else {
                        Seq::empty()
                    }),
                ))
            &&& step matches LandStepView::AskHygieneAgain(asked) ==> case.config.lane.target is Some
                && facts.hygiene_again is None && exists|head: Seq<char>, tip: RevView|
                #![trigger checked_head(case, facts, head), is_pinned(facts, tip)]
                checked_head(case, facts, head) && is_pinned(facts, tip) && asked.conflicts
                    == jj::revisions_args("conflicts() & ::"@ + tip.commit_id) && asked.divergent
                    == jj::revisions_args("divergent() & ::"@ + tip.commit_id)
                    && asked.undescribed == jj::revisions_args(
                    "("@ + head + ".."@ + tip.commit_id
                        + ") & description(exact:\"\") ~ empty()"@,
                )
        }),
{
    let lane = revset::quoted(case.name) + "@"@;
    let step = land_next(case, facts);
    if let Some(parents) = facts.pinned {
        if parents@.len() == 1 {
            assert(is_pinned(facts, parents@[0]@));
        }
    }
    if let Some(answer) = facts.target {
        if let Ok(head) = case.head(answer) {
            assert(checked_head(case, facts, head));
            if let LandStepView::AskHygiene(asked) = step {
                let wc = facts.working_copy->0;
                let base = "("@ + head + ".."@ + lane + ") & description(exact:\"\") ~ empty()"@;
                assert(base + Seq::<char>::empty() =~= base);
                let parent = wc.parents@[0].commit_id@;
                assert(base + " ~ "@ + parent =~= base + (" ~ "@ + parent));
                assert(base + " ~ "@ + lane =~= base + (" ~ "@ + lane));
            }
        }
    }
}

/// Why a landing is refused: each refusal names a fact that stands against it,
/// with its details, so that nothing is refused that could land.
pub proof fn law_refusals_have_a_reason(case: LandCase, facts: LandFacts)
    ensures
        land_next(case, facts) matches LandStepView::Refuse(e) ==> refusal_is_due(case, facts, e),
{
    if let Some(answer) = facts.target {
        if let Ok(head) = case.head(answer) {
            assert(checked_head(case, facts, head));
        }
    }
    if let Some(again) = facts.target_again {
        if let Ok(found) = case.head(again) {
            assert(case.found_head(again, found));
        }
    }
}

/// A refusal that the facts ask for.
pub open spec fn refusal_is_due(case: LandCase, facts: LandFacts, e: error::ErrorView) -> bool {
    ||| e == error::about(ErrorKind::LaneCloseFromInside, case.name) && case.request.close
        && case.name == case.current
    ||| e == error::about(ErrorKind::LaneWorkspaceMissing, case.name) && (facts.lane_root == Some(
        false,
    ) || (facts.pinned matches Some(parents) && parents@.len() != 1))
    ||| facts.target matches Some(answer) && (case.head(answer) matches Err(problem) && e
        == problem)
    ||| facts.target_again matches Some(answer) && (case.head(answer) matches Err(problem) && e
        == problem)
    ||| facts.synced == Some(false) && (facts.behind matches Some(n) && e == error::about2(
        ErrorKind::LaneNotSynced,
        case.name,
        text::decimal(n as nat),
    ))
    ||| facts.conflicts matches Some(n) && n > 0 && e == error::about2(
        ErrorKind::LaneConflicted,
        case.name,
        text::decimal(n as nat),
    )
    ||| e == error::about(ErrorKind::LaneNothingToLand, case.name) && (
    facts.working_copy matches Some(wc) && wc.empty && wc.parents@.len() == 1 && checked_head(
        case,
        facts,
        wc.parents@[0].commit_id@,
    ))
    ||| !case.request.allow_unscoped && (facts.changed matches Some(changed) && {
        let outside = text::views(changed@).filter(lane_rules::outside(case.write_set));
        outside.len() > 0 && e == error::about2(
            ErrorKind::LaneUnscopedChanges,
            case.name,
            text::join(outside, "\n"@),
        )
    })
    ||| case.config.lane.target is None && (facts.trunk_dirty matches Some(dirty) && {
        let inside = text::views(dirty@).filter(lane_rules::inside(case.write_set));
        inside.len() > 0 && e == error::about2(
            ErrorKind::LaneTrunkDirtyInScope,
            case.name,
            text::join(inside, "\n"@),
        )
    })
    ||| facts.working_copy matches Some(wc) && wc.empty && wc.parents@.len() != 1 && e
        == error::about2(
        ErrorKind::LaneTrunkNotReady,
        case.target_name(),
        "lane working copy has multiple parents"@,
    )
    ||| e == error::about(ErrorKind::LaneNeedsMessage, case.name) && case.request.message is None
        && (facts.working_copy matches Some(wc) && (if wc.empty {
        wc.parents@[0].message@.len() == 0
    } else {
        wc.message@.len() == 0
    }))
    ||| facts.hygiene matches Some(found) && is_unclean(case, found, e)
    ||| facts.hygiene_again matches Some(found) && is_unclean(case, found, e)
    ||| facts.gate_passed == Some(false) && (case.gate() matches Some(command) && e == error::about(
        ErrorKind::LaneGateFailed,
        command,
    ))
    ||| facts.target_again matches Some(again) && exists|head: Seq<char>, found: Seq<char>|
        #![trigger checked_head(case, facts, head), case.found_head(again, found)]
        checked_head(case, facts, head) && case.found_head(again, found) && head != found && e
            == error::about3(ErrorKind::LaneTrunkMoved, case.name, head, found)
}

impl LandCase {
    /// A lookup found this head.
    pub open spec fn found_head(self, answer: TargetAnswer, head: Seq<char>) -> bool {
        self.head(answer) == Ok::<Seq<char>, error::ErrorView>(head)
    }
}

/// A refusal to publish, with the number of commits that stand against it:
/// conflicts weigh more than divergence, divergence more than a missing
/// description.
pub open spec fn is_unclean(case: LandCase, found: Hygiene, e: error::ErrorView) -> bool {
    &&& case.config.lane.target matches Some(bookmark) && e.kind == ErrorKind::LaneTargetHygiene
        && e.args.len() == 2 && e.args[0] == bookmark@
    &&& if found.conflicts > 0 {
        e.args[1] == text::decimal(found.conflicts as nat) + " conflicted commit(s) below the head"@
    } else if found.divergent > 0 {
        e.args[1] == text::decimal(found.divergent as nat) + " divergent commit(s) below the head"@
    } else {
        found.undescribed > 0 && e.args[1] == text::decimal(found.undescribed as nat)
            + " undescribed commit(s) in the landed range"@
    }
}

/// A landing that is not held up goes on: whatever is known, the next step is a
/// refusal, a question whose answer is not known yet, something not done yet, or
/// the end, which comes only where the landing is recorded.
pub proof fn law_landing_goes_on(case: LandCase, facts: LandFacts)
    ensures
        match land_next(case, facts) {
            LandStepView::Refuse(_) => true,
            LandStepView::CheckLaneRoot => facts.lane_root is None,
            LandStepView::SnapshotLane(args) => !facts.lane_snapshot && args == seq![
                "util"@,
                "snapshot"@,
            ],
            LandStepView::SnapshotTrunk(args) => !facts.trunk_snapshot && args == seq![
                "util"@,
                "snapshot"@,
            ] && case.config.lane.target is None,
            LandStepView::Finish(_) => facts.recorded && facts.advanced && facts.locked,
            _ => true,
        },
{
}

/// The landing gate is skipped only on request: where a gate was given with the
/// landing or is configured, nothing is locked, moved or recorded before it
/// passed.
pub proof fn law_gate_is_skipped_only_on_request(case: LandCase, facts: LandFacts)
    requires
        !case.request.no_gate,
        case.request.gate_override is Some || case.config.lane.gate is Some,
    ensures
        ({
            let step = land_next(case, facts);
            step is TakeLock || step is AskTargetAgain || step is AskHygieneAgain
                || step is AskLandedChanges || step is PrepareIntegration || step is AdvanceTrunk
                || step is AdvanceBookmark || step is Record || step is Finish
                ==> facts.gate_passed == Some(true)
        }),
{
}

/// Where a landing could be refused it is: a lane that is behind, conflicted or
/// empty, that changes paths outside its write-set, or that lacks a message,
/// gets no further than the check that finds it.
pub proof fn law_what_stands_against_a_landing_stops_it(case: LandCase, facts: LandFacts)
    requires
        ({
            ||| facts.synced == Some(false)
            ||| facts.conflicts matches Some(n) && n > 0
            ||| facts.working_copy matches Some(wc) && wc.empty && wc.parents@.len() != 1
            ||| case.request.message is None && (facts.working_copy matches Some(wc) && !wc.empty
                && wc.message@.len() == 0)
            ||| case.request.message is None && (facts.working_copy matches Some(wc) && wc.empty
                && wc.parents@.len() == 1 && wc.parents@[0].message@.len() == 0)
            ||| case.config.lane.target is Some && (facts.hygiene matches Some(found)
                && found.conflicts + found.divergent + found.undescribed > 0)
        }),
    ensures
        !is_change(land_next(case, facts)),
{
}

/// A lane without work of its own does not land, nor does one that changes a
/// path outside its write-set without leave, nor one whose write-set the trunk's
/// working copy has changes in.
pub proof fn law_empty_or_unscoped_work_does_not_land(case: LandCase, facts: LandFacts)
    requires
        ({
            ||| facts.working_copy matches Some(wc) && wc.empty && wc.parents@.len() == 1
                && checked_head(case, facts, wc.parents@[0].commit_id@)
            ||| !case.request.allow_unscoped && (facts.changed matches Some(changed) && exists|
                i: int,
            |
                0 <= i < changed@.len() && !lane_rules::in_scope(
                    (#[trigger] changed@[i])@,
                    case.write_set,
                ))
            ||| case.config.lane.target is None && (facts.trunk_dirty matches Some(dirty) && exists|
                i: int,
            |
                0 <= i < dirty@.len() && lane_rules::in_scope(
                    (#[trigger] dirty@[i])@,
                    case.write_set,
                ))
        }),
    ensures
        !is_change(land_next(case, facts)),
{
    law_checks_come_first(case, facts);
    if is_change(land_next(case, facts)) {
        let changed = facts.changed->0;
        assert forall|i: int| 0 <= i < changed@.len() implies text::views(changed@)[i] == (
        #[trigger] changed@[i])@ by {}
        if case.config.lane.target is None {
            let dirty = facts.trunk_dirty->0;
            assert forall|i: int| 0 <= i < dirty@.len() implies text::views(dirty@)[i] == (
            #[trigger] dirty@[i])@ by {}
        }
    }
}

} // verus!
