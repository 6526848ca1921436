//! Syncing one lane onto the head, and rippling a new head to the other
//! lanes. Each is a sequence of steps; the next step follows from what is
//! known so far.

use vstd::prelude::*;

use crate::jj::{self, JjRequest};
use crate::jj_output;
use crate::lane_ops::{self, range_conflicts_request, NaviWorkspace};
use crate::lane_rules::{self, unscoped_paths};
use crate::lane_store::{self, LaneRecord, LaneStore};
use crate::revset::{self, workspace_revset_symbol};
use crate::text::{self, copy, copy_all, copy_opt};
use crate::types::{
    self, LaneFanoutEntry, LaneLifecycle, LaneRev, LaneSyncOutcome, RevView, WorkspaceName,
};

verus! {

// ---------------------------------------------------------------------------
// Syncing

/// What is known while a lane is synced.
pub struct SyncFacts {
    /// Whether the lane's workspace exists.
    pub workspace_exists: Option<bool>,
    /// Set once the working copy was snapshotted: whether it was stale.
    pub recovered_stale: Option<bool>,
    /// Whether the lane was on the head before anything was done.
    pub synced: Option<bool>,
    /// The lane was rebased onto the head.
    pub rebased: bool,
    /// The working copy was made current after the rebase.
    pub refreshed: bool,
    /// Conflicted commits of the lane. Forgotten when policies are applied.
    pub conflicts: Option<Vec<LaneRev>>,
    /// The resolution policies were applied.
    pub policies_applied: bool,
    /// Paths that the lane changed.
    pub changed: Option<Vec<String>>,
    /// Paths outside the write-set were restored.
    pub dropped: bool,
}

/// What to do next.
pub enum SyncStep {
    /// Find out whether the lane's workspace exists.
    AskWorkspace,
    /// Snapshot the lane's working copy, recovering it where it is stale.
    Snapshot(JjRequest),
    /// Ask whether the lane is on the head.
    AskSynced(JjRequest),
    /// Rebase the lane onto the head.
    Rebase(JjRequest),
    /// In the lane: make the working copy current.
    Refresh(JjRequest),
    /// Ask for the lane's conflicts.
    AskConflicts(JjRequest),
    /// Apply the resolution policies.
    ApplyPolicies,
    /// Ask for the paths that the lane changed.
    AskChanged(JjRequest),
    /// In the lane: restore the paths outside the write-set.
    Drop(JjRequest),
    /// Nothing is left to do.
    Done(LaneSyncOutcome),
}

/// An outcome as mathematical values.
pub struct SyncOutcomeView {
    pub name: Seq<char>,
    pub workspace_exists: bool,
    pub recovered_stale: bool,
    pub rebased: bool,
    pub conflicts: Seq<RevView>,
    pub dropped: Seq<Seq<char>>,
}

/// The view of an outcome.
pub open spec fn outcome_view(outcome: LaneSyncOutcome) -> SyncOutcomeView {
    SyncOutcomeView {
        name: outcome.name@,
        workspace_exists: outcome.workspace_exists,
        recovered_stale: outcome.recovered_stale,
        rebased: outcome.rebased,
        conflicts: jj_output::rev_views(outcome.conflicts@),
        dropped: text::views(outcome.dropped@),
    }
}

/// A step as mathematical values.
pub enum SyncStepView {
    AskWorkspace,
    Snapshot(Seq<Seq<char>>),
    AskSynced(Seq<Seq<char>>),
    Rebase(Seq<Seq<char>>),
    Refresh(Seq<Seq<char>>),
    AskConflicts(Seq<Seq<char>>),
    ApplyPolicies,
    AskChanged(Seq<Seq<char>>),
    Drop(Seq<Seq<char>>),
    Done(SyncOutcomeView),
}

impl View for SyncStep {
    type V = SyncStepView;

    open spec fn view(&self) -> SyncStepView {
        match self {
            SyncStep::AskWorkspace => SyncStepView::AskWorkspace,
            SyncStep::Snapshot(r) => SyncStepView::Snapshot(r@),
            SyncStep::AskSynced(r) => SyncStepView::AskSynced(r@),
            SyncStep::Rebase(r) => SyncStepView::Rebase(r@),
            SyncStep::Refresh(r) => SyncStepView::Refresh(r@),
            SyncStep::AskConflicts(r) => SyncStepView::AskConflicts(r@),
            SyncStep::ApplyPolicies => SyncStepView::ApplyPolicies,
            SyncStep::AskChanged(r) => SyncStepView::AskChanged(r@),
            SyncStep::Drop(r) => SyncStepView::Drop(r@),
            SyncStep::Done(outcome) => SyncStepView::Done(outcome_view(*outcome)),
        }
    }
}

/// The changed paths that are to be dropped.
pub open spec fn dropped_paths(
    changed: Option<Vec<String>>,
    write_set: Seq<Seq<char>>,
) -> Seq<Seq<char>> {
    match changed {
        Some(paths) => text::views(paths@).filter(lane_rules::outside(write_set)),
        None => Seq::empty(),
    }
}

/// The next step of syncing a lane. A lane without a workspace is left alone.
/// Its working copy is snapshotted before anything moves; a lane that is not on
/// the head is rebased, and its working copy made current at once. Policies are
/// applied once, to conflicts that the rebase brought.
pub open spec fn sync_next(
    policies: bool,
    name: Seq<char>,
    write_set: Seq<Seq<char>>,
    head: Seq<char>,
    drop_unscoped: bool,
    facts: SyncFacts,
) -> SyncStepView {
    let symbol = revset::workspace_symbol(name);
    match facts.workspace_exists {
        None => SyncStepView::AskWorkspace,
        Some(false) => SyncStepView::Done(
            SyncOutcomeView {
                name,
                workspace_exists: false,
                recovered_stale: false,
                rebased: false,
                conflicts: Seq::empty(),
                dropped: Seq::empty(),
            },
        ),
        Some(true) => match (facts.recovered_stale, facts.synced) {
            (None, _) => SyncStepView::Snapshot(jj::snapshot_args()),
            (Some(_), None) => SyncStepView::AskSynced(
                jj::revisions_args(jj::ancestor_revset(head, symbol)),
            ),
            (Some(recovered_stale), Some(synced)) => if !synced && !facts.rebased {
                SyncStepView::Rebase(jj::rebase_branch_args(symbol, head))
            } else if !synced && !facts.refreshed {
                SyncStepView::Refresh(jj::update_stale_args())
            } else {
                match facts.conflicts {
                    None => SyncStepView::AskConflicts(
                        jj::revisions_args(lane_ops::range_conflicts_revset(head, symbol)),
                    ),
                    Some(conflicts) => if policies && !synced && conflicts@.len() > 0
                        && !facts.policies_applied {
                        SyncStepView::ApplyPolicies
                    } else if drop_unscoped && facts.changed is None {
                        SyncStepView::AskChanged(jj::changed_paths_args(head, symbol))
                    } else {
                        let dropped = if drop_unscoped {
                            dropped_paths(facts.changed, write_set)
                        } else {
                            Seq::empty()
                        };
                        if dropped.len() > 0 && !facts.dropped {
                            SyncStepView::Drop(jj::restore_args(head, dropped))
                        } else {
                            SyncStepView::Done(
                                SyncOutcomeView {
                                    name,
                                    workspace_exists: true,
                                    recovered_stale,
                                    rebased: !synced,
                                    conflicts: jj_output::rev_views(conflicts@),
                                    dropped,
                                },
                            )
                        }
                    },
                }
            },
        },
    }
}

/// New revisions with the texts of `revisions`.
pub fn copy_revisions(revisions: &Vec<LaneRev>) -> (res: Vec<LaneRev>)
    ensures
        jj_output::rev_views(res@) == jj_output::rev_views(revisions@),
{
    let mut out: Vec<LaneRev> = Vec::new();
    let mut i: usize = 0;
    let ghost all = jj_output::rev_views(revisions@);
    assert(jj_output::rev_views(out@) =~= all.take(0));
    while i < revisions.len()
        invariant
            i <= revisions@.len(),
            all == jj_output::rev_views(revisions@),
            jj_output::rev_views(out@) == all.take(i as int),
        decreases revisions@.len() - i,
    {
        let ghost before = out@;
        let rev = &revisions[i];
        out.push(
            LaneRev {
                commit_id: copy(rev.commit_id.as_str()),
                change_id: copy(rev.change_id.as_str()),
                message: copy(rev.message.as_str()),
            },
        );
        i = i + 1;
        assert(jj_output::rev_views(out@) =~= jj_output::rev_views(before).push(rev@));
        assert(all.take(i as int) =~= all.take(i - 1).push(all[i - 1]));
    }
    assert(all.take(i as int) =~= all);
    out
}

impl NaviWorkspace {
    /// Whether conflicts that a sync brings are resolved by policy.
    pub open spec fn resolves_on_sync(self) -> bool {
        self.config.lane.auto_resolve && self.config.resolve@.len() > 0
    }

    /// The next step of syncing a lane.
    pub fn sync_one(
        &self,
        record: &LaneRecord,
        head: &str,
        drop_unscoped: bool,
        facts: &SyncFacts,
    ) -> (res: SyncStep)
        ensures
            res@ == sync_next(
                self.resolves_on_sync(),
                record.name@,
                record@.paths,
                head@,
                drop_unscoped,
                *facts,
            ),
    {
        let exists = match facts.workspace_exists {
            None => {
                return SyncStep::AskWorkspace;
            },
            Some(exists) => exists,
        };
        let none: Vec<String> = Vec::new();
        let no_conflicts: Vec<LaneRev> = Vec::new();
        proof {
            text::lemma_views_empty(none@);
            assert(jj_output::rev_views(no_conflicts@) =~= Seq::<RevView>::empty());
        }
        if !exists {
            return SyncStep::Done(
                LaneSyncOutcome {
                    name: record.name.clone(),
                    workspace_exists: false,
                    recovered_stale: false,
                    rebased: false,
                    conflicts: no_conflicts,
                    dropped: none,
                },
            );
        }
        let symbol = workspace_revset_symbol(&record.name);
        let recovered_stale = match facts.recovered_stale {
            None => {
                return SyncStep::Snapshot(JjRequest::snapshot());
            },
            Some(recovered) => recovered,
        };
        let synced = match facts.synced {
            None => {
                return SyncStep::AskSynced(JjRequest::is_ancestor(head, symbol.as_str()));
            },
            Some(synced) => synced,
        };
        if !synced && !facts.rebased {
            return SyncStep::Rebase(JjRequest::rebase_branch(symbol.as_str(), head));
        }
        if !synced && !facts.refreshed {
            return SyncStep::Refresh(JjRequest::update_stale());
        }
        let conflicts = match &facts.conflicts {
            None => {
                return SyncStep::AskConflicts(range_conflicts_request(head, symbol.as_str()));
            },
            Some(conflicts) => conflicts,
        };
        let policies = self.config.lane.auto_resolve && self.config.resolve.len() > 0;
        if policies && !synced && conflicts.len() > 0 && !facts.policies_applied {
            return SyncStep::ApplyPolicies;
        }
        let dropped = if drop_unscoped {
            match &facts.changed {
                None => {
                    return SyncStep::AskChanged(JjRequest::changed_paths(head, symbol.as_str()));
                },
                Some(changed) => unscoped_paths(changed, &record.paths),
            }
        } else {
            none
        };
        assert(text::views(dropped@).len() == dropped@.len());
        if dropped.len() > 0 && !facts.dropped {
            return SyncStep::Drop(JjRequest::restore_paths(head, &dropped));
        }
        SyncStep::Done(
            LaneSyncOutcome {
                name: record.name.clone(),
                workspace_exists: true,
                recovered_stale,
                rebased: !synced,
                conflicts: copy_revisions(conflicts),
                dropped,
            },
        )
    }
}

/// Work inside the write-set survives a sync: every path that is restored from
/// the head is outside it.
pub proof fn law_sync_drops_only_unscoped(
    policies: bool,
    name: Seq<char>,
    write_set: Seq<Seq<char>>,
    head: Seq<char>,
    drop_unscoped: bool,
    facts: SyncFacts,
)
    ensures
        sync_next(policies, name, write_set, head, drop_unscoped, facts) matches SyncStepView::Drop(
            args,
        ) ==> drop_unscoped && args == jj::restore_args(
            head,
            dropped_paths(facts.changed, write_set),
        ) && forall|i: int|
            0 <= i < dropped_paths(facts.changed, write_set).len() ==> !lane_rules::in_scope(
                #[trigger] dropped_paths(facts.changed, write_set)[i],
                write_set,
            ),
{
    if let Some(paths) = facts.changed {
        let all = text::views(paths@);
        let keep = lane_rules::outside(write_set);
        assert forall|i: int| 0 <= i < all.filter(keep).len() implies !lane_rules::in_scope(
            #[trigger] all.filter(keep)[i],
            write_set,
        ) by {
            all.lemma_filter_pred(keep, i);
        }
    }
}

/// A lane is rebased only after its working copy was snapshotted, and a sync of
/// an existing workspace ends only when the lane is on the head and its working
/// copy current.
pub proof fn law_sync_is_orderly(
    policies: bool,
    name: Seq<char>,
    write_set: Seq<Seq<char>>,
    head: Seq<char>,
    drop_unscoped: bool,
    facts: SyncFacts,
)
    ensures
        ({
            let step = sync_next(policies, name, write_set, head, drop_unscoped, facts);
            &&& step is Rebase ==> facts.recovered_stale is Some && facts.synced == Some(false)
                && !facts.rebased
            &&& (step matches SyncStepView::Done(outcome) && outcome.workspace_exists) ==> (
            facts.synced == Some(true) || (facts.rebased && facts.refreshed))
        }),
{
}

// ---------------------------------------------------------------------------
// Fan-out

/// What is known while a peer lane is moved onto a new head.
pub struct PeerFacts {
    /// Whether the peer's workspace exists.
    pub workspace_exists: Option<bool>,
    /// Whether the peer is on the new head already.
    pub current: Option<bool>,
    /// The peer's working copy was snapshotted.
    pub snapshotted: bool,
    /// The peer was rebased.
    pub rebased: bool,
    /// The peer's working copy was made current again.
    pub recovered: bool,
    /// Conflicted commits of the peer after the rebase.
    pub conflicts: Option<usize>,
    /// What went wrong.
    pub error: Option<String>,
}

/// What to do next for a peer lane.
pub enum PeerStep {
    /// Find out whether the peer's workspace exists.
    AskWorkspace,
    /// Ask whether the peer is on the new head.
    AskCurrent(JjRequest),
    /// Snapshot the peer's working copy.
    Snapshot(JjRequest),
    /// Rebase the peer onto the new head.
    Rebase(JjRequest),
    /// In the peer: make the working copy current.
    Recover(JjRequest),
    /// Ask for the peer's conflicts.
    AskConflicts(JjRequest),
    /// Nothing is left to do.
    Done(LaneFanoutEntry),
}

/// A fan-out entry as mathematical values.
pub struct FanoutView {
    pub name: Seq<char>,
    pub rebased: bool,
    pub conflicts: nat,
    pub error: Option<Seq<char>>,
}

/// The view of a fan-out entry.
pub open spec fn fanout_view(entry: LaneFanoutEntry) -> FanoutView {
    FanoutView {
        name: entry.name@,
        rebased: entry.rebased,
        conflicts: entry.conflicts as nat,
        error: text::opt_view(entry.error),
    }
}

/// A step for a peer as mathematical values.
pub enum PeerStepView {
    AskWorkspace,
    AskCurrent(Seq<Seq<char>>),
    Snapshot(Seq<Seq<char>>),
    Rebase(Seq<Seq<char>>),
    Recover(Seq<Seq<char>>),
    AskConflicts(Seq<Seq<char>>),
    Done(FanoutView),
}

impl View for PeerStep {
    type V = PeerStepView;

    open spec fn view(&self) -> PeerStepView {
        match self {
            PeerStep::AskWorkspace => PeerStepView::AskWorkspace,
            PeerStep::AskCurrent(r) => PeerStepView::AskCurrent(r@),
            PeerStep::Snapshot(r) => PeerStepView::Snapshot(r@),
            PeerStep::Rebase(r) => PeerStepView::Rebase(r@),
            PeerStep::Recover(r) => PeerStepView::Recover(r@),
            PeerStep::AskConflicts(r) => PeerStepView::AskConflicts(r@),
            PeerStep::Done(entry) => PeerStepView::Done(fanout_view(*entry)),
        }
    }
}

/// The entry that says what is known of a peer.
pub open spec fn peer_entry(name: Seq<char>, facts: PeerFacts) -> FanoutView {
    FanoutView {
        name,
        rebased: facts.rebased,
        conflicts: match facts.conflicts {
            Some(n) => n as nat,
            None => 0,
        },
        error: text::opt_view(facts.error),
    }
}

/// The next step for a peer lane. A failure ends it and is reported; it never
/// undoes the landing. The peer's working copy is snapshotted before the rebase
/// and made current after it.
pub open spec fn peer_next(name: Seq<char>, head: Seq<char>, facts: PeerFacts) -> PeerStepView {
    let symbol = revset::workspace_symbol(name);
    if facts.error is Some {
        PeerStepView::Done(peer_entry(name, facts))
    } else {
        match (facts.workspace_exists, facts.current) {
            (None, _) => PeerStepView::AskWorkspace,
            (Some(false), _) => PeerStepView::Done(peer_entry(name, facts)),
            (Some(true), None) => PeerStepView::AskCurrent(
                jj::revisions_args(jj::ancestor_revset(head, symbol)),
            ),
            (Some(true), Some(true)) => PeerStepView::Done(peer_entry(name, facts)),
            (Some(true), Some(false)) => if !facts.snapshotted {
                PeerStepView::Snapshot(jj::snapshot_args())
            } else if !facts.rebased {
                PeerStepView::Rebase(jj::rebase_branch_args(symbol, head))
            } else if !facts.recovered {
                PeerStepView::Recover(jj::update_stale_args())
            } else if facts.conflicts is None {
                PeerStepView::AskConflicts(
                    jj::revisions_args(lane_ops::range_conflicts_revset(head, symbol)),
                )
            } else {
                PeerStepView::Done(peer_entry(name, facts))
            },
        }
    }
}

fn peer_done(name: &WorkspaceName, facts: &PeerFacts) -> (res: PeerStep)
    ensures
        res@ == PeerStepView::Done(peer_entry(name@, *facts)),
{
    PeerStep::Done(
        LaneFanoutEntry {
            name: name.clone(),
            rebased: facts.rebased,
            conflicts: match facts.conflicts {
                Some(n) => n,
                None => 0,
            },
            error: copy_opt(&facts.error),
        },
    )
}

/// The next step for a peer lane.
pub fn fan_out_peer(name: &WorkspaceName, head: &str, facts: &PeerFacts) -> (res: PeerStep)
    ensures
        res@ == peer_next(name@, head@, *facts),
{
    if facts.error.is_some() {
        return peer_done(name, facts);
    }
    let symbol = workspace_revset_symbol(name);
    match (facts.workspace_exists, facts.current) {
        (None, _) => PeerStep::AskWorkspace,
        (Some(false), _) => peer_done(name, facts),
        (Some(true), None) => PeerStep::AskCurrent(JjRequest::is_ancestor(head, symbol.as_str())),
        (Some(true), Some(true)) => peer_done(name, facts),
        (Some(true), Some(false)) => {
            if !facts.snapshotted {
                PeerStep::Snapshot(JjRequest::snapshot())
            } else if !facts.rebased {
                PeerStep::Rebase(JjRequest::rebase_branch(symbol.as_str(), head))
            } else if !facts.recovered {
                PeerStep::Recover(JjRequest::update_stale())
            } else if facts.conflicts.is_none() {
                PeerStep::AskConflicts(range_conflicts_request(head, symbol.as_str()))
            } else {
                peer_done(name, facts)
            }
        },
    }
}

/// A peer's chain is never rewritten before its working copy was snapshotted,
/// and a fan-out that went well leaves a rebased peer with a current working
/// copy.
pub proof fn law_fan_out_snapshots_first(name: Seq<char>, head: Seq<char>, facts: PeerFacts)
    ensures
        ({
            let step = peer_next(name, head, facts);
            &&& step is Rebase ==> facts.snapshotted && facts.current == Some(false)
            &&& (step matches PeerStepView::Done(entry) && entry.error is None
                && facts.workspace_exists == Some(true)) ==> (facts.current == Some(true) || (
            facts.snapshotted && facts.rebased && facts.recovered))
        }),
{
}

/// Being an open lane other than the one that landed.
pub open spec fn is_peer(landed: Seq<char>) -> spec_fn(LaneRecord) -> bool {
    |r: LaneRecord| r.lifecycle == LaneLifecycle::Open && r.name@ != landed
}

/// The lanes that a landing ripples to: every other open lane, in order.
pub fn fan_out_peers(store: &LaneStore, landed: &WorkspaceName) -> (res: Vec<WorkspaceName>)
    ensures
        types::name_views(res@) == lane_store::record_names(
            store.records@.filter(is_peer(landed@)),
        ),
{
    let ghost keep = is_peer(landed@);
    let mut out: Vec<WorkspaceName> = Vec::new();
    let mut i: usize = 0;
    proof {
        reveal(Seq::filter);
        assert(lane_store::record_names(store.records@.take(0).filter(keep)) =~= types::name_views(
            out@,
        ));
    }
    while i < store.records.len()
        invariant
            i <= store.records@.len(),
            keep == is_peer(landed@),
            types::name_views(out@) == lane_store::record_names(
                store.records@.take(i as int).filter(keep),
            ),
        decreases store.records@.len() - i,
    {
        let record = &store.records[i];
        let ghost before = out@;
        let ghost kept = store.records@.take(i as int).filter(keep);
        proof {
            reveal(Seq::filter);
            assert(store.records@.take(i + 1).drop_last() == store.records@.take(i as int));
        }
        if record.lifecycle == LaneLifecycle::Open && !record.name.same_as(landed) {
            out.push(record.name.clone());
            proof {
                assert(types::name_views(out@) =~= types::name_views(before).push(record.name@));
                assert(lane_store::record_names(kept.push(*record)) =~= lane_store::record_names(
                    kept,
                ).push(record.name@));
            }
        }
        i = i + 1;
    }
    assert(store.records@.take(i as int) == store.records@);
    out
}

// ---------------------------------------------------------------------------
// What a sync asks and does

/// Each question of a sync is about the lane and the head: whether the head is
/// an ancestor of the lane, the conflicted commits that the lane has and the
/// head has not, and the changes from the head to the lane. The lane's branch is
/// rebased onto the head, and what is dropped is restored from the head.
pub proof fn law_sync_asks_about_lane_and_head(
    policies: bool,
    name: Seq<char>,
    write_set: Seq<Seq<char>>,
    head: Seq<char>,
    drop_unscoped: bool,
    facts: SyncFacts,
)
    ensures
        ({
            let lane = revset::quoted(name) + "@"@;
            let step = sync_next(policies, name, write_set, head, drop_unscoped, facts);
            &&& step is AskWorkspace ==> facts.workspace_exists is None
            &&& step matches SyncStepView::Snapshot(args) ==> facts.recovered_stale is None && args
                == seq!["util"@, "snapshot"@]
            &&& step matches SyncStepView::AskSynced(args) ==> facts.synced is None && args
                == jj::revisions_args("("@ + head + ") & ::("@ + lane + ")"@)
            &&& step matches SyncStepView::Rebase(args) ==> args == seq![
                "rebase"@,
                "-b"@,
                lane,
                "-d"@,
                head,
            ]
            &&& step matches SyncStepView::Refresh(args) ==> facts.rebased && !facts.refreshed
                && args == seq!["workspace"@, "update-stale"@]
            &&& step matches SyncStepView::AskConflicts(args) ==> facts.conflicts is None && args
                == jj::revisions_args("conflicts() & ("@ + head + ".."@ + lane + ")"@)
            &&& step matches SyncStepView::AskChanged(args) ==> drop_unscoped && facts.changed is None
                && args.len() == 7 && args[2] == "--summary"@ && args[3] == "--from"@ && args[4]
                == head && args[5] == "--to"@ && args[6] == lane
            &&& step matches SyncStepView::Drop(args) ==> !facts.dropped && args.len() > 3
                && args[0] == "restore"@ && args[1] == "--from"@ && args[2] == head
        }),
{
}

/// What a sync reports is what it found and did: the lane, whether it had to be
/// recovered or rebased, and the conflicts that were listed last; and it drops
/// every changed path outside the write-set, where it was asked to, and nothing
/// else.
pub proof fn law_sync_reports_what_it_found(
    policies: bool,
    name: Seq<char>,
    write_set: Seq<Seq<char>>,
    head: Seq<char>,
    drop_unscoped: bool,
    facts: SyncFacts,
)
    ensures
        sync_next(policies, name, write_set, head, drop_unscoped, facts) matches SyncStepView::Done(
            outcome,
        ) ==> {
            &&& outcome.name == name
            &&& facts.workspace_exists == Some(outcome.workspace_exists)
            &&& !outcome.workspace_exists ==> !outcome.recovered_stale && !outcome.rebased
                && outcome.conflicts.len() == 0 && outcome.dropped.len() == 0
            &&& outcome.workspace_exists ==> {
                &&& facts.recovered_stale == Some(outcome.recovered_stale)
                &&& facts.synced == Some(!outcome.rebased)
                &&& facts.conflicts matches Some(found) && outcome.conflicts.len() == found@.len()
                    && forall|i: int|
                    0 <= i < found@.len() ==> #[trigger] outcome.conflicts[i] == found@[i]@
                &&& !drop_unscoped ==> outcome.dropped.len() == 0
                &&& drop_unscoped ==> (facts.changed matches Some(changed) && (
                outcome.dropped.len() == 0 || facts.dropped) && forall|path: Seq<char>| #[trigger]
                    outcome.dropped.contains(path) <==> text::views(changed@).contains(path)
                        && !lane_rules::in_scope(path, write_set))
                &&& policies && outcome.rebased && outcome.conflicts.len() > 0
                    ==> facts.policies_applied
            }
        },
{
    if let SyncStepView::Done(outcome) = sync_next(
        policies,
        name,
        write_set,
        head,
        drop_unscoped,
        facts,
    ) {
        if outcome.workspace_exists && drop_unscoped {
            let all = text::views(facts.changed->0@);
            let keep = lane_rules::outside(write_set);
            assert forall|path: Seq<char>| #[trigger] outcome.dropped.contains(path) <==> all.contains(
                path,
            ) && !lane_rules::in_scope(path, write_set) by {
                if outcome.dropped.contains(path) {
                    let k = choose|k: int|
                        0 <= k < all.filter(keep).len() && all.filter(keep)[k] == path;
                    all.lemma_filter_pred(keep, k);
                    all.lemma_filter_contains_rev(keep, path);
                }
                if all.contains(path) && !lane_rules::in_scope(path, write_set) {
                    let i = choose|i: int| 0 <= i < all.len() && all[i] == path;
                    all.lemma_filter_contains(keep, i);
                }
            }
        }
    }
}

/// Policies are applied once, and only to conflicts that the rebase of this sync
/// brought.
pub proof fn law_policies_are_applied_to_new_conflicts(
    policies: bool,
    name: Seq<char>,
    write_set: Seq<Seq<char>>,
    head: Seq<char>,
    drop_unscoped: bool,
    facts: SyncFacts,
)
    ensures
        sync_next(policies, name, write_set, head, drop_unscoped, facts) is ApplyPolicies ==> policies
            && facts.rebased && facts.synced == Some(false) && !facts.policies_applied && (
        facts.conflicts matches Some(found) && found@.len() > 0),
{
}

/// A new head ripples to a peer as a sync does: whether the head is an ancestor
/// of the peer, then the peer's branch is rebased onto the head, and its
/// conflicts are those that it has and the head has not. What is reported is what
/// was done.
pub proof fn law_fan_out_asks_about_peer_and_head(name: Seq<char>, head: Seq<char>, facts: PeerFacts)
    ensures
        ({
            let peer = revset::quoted(name) + "@"@;
            let step = peer_next(name, head, facts);
            &&& facts.error is Some ==> step is Done
            &&& step is AskWorkspace ==> facts.workspace_exists is None
            &&& step matches PeerStepView::AskCurrent(args) ==> facts.current is None && args
                == jj::revisions_args("("@ + head + ") & ::("@ + peer + ")"@)
            &&& step matches PeerStepView::Snapshot(args) ==> !facts.snapshotted && args == seq![
                "util"@,
                "snapshot"@,
            ]
            &&& step matches PeerStepView::Rebase(args) ==> !facts.rebased && args == seq![
                "rebase"@,
                "-b"@,
                peer,
                "-d"@,
                head,
            ]
            &&& step matches PeerStepView::Recover(args) ==> facts.rebased && !facts.recovered
                && args == seq!["workspace"@, "update-stale"@]
            &&& step matches PeerStepView::AskConflicts(args) ==> facts.recovered
                && facts.conflicts is None && args == jj::revisions_args(
                "conflicts() & ("@ + head + ".."@ + peer + ")"@,
            )
            &&& step matches PeerStepView::Done(entry) ==> entry.name == name && entry.rebased
                == facts.rebased && entry.error == text::opt_view(facts.error) && (
            facts.conflicts matches Some(n) ==> entry.conflicts == n) && (facts.conflicts is None
                ==> entry.conflicts == 0) && (entry.error is None ==> facts.workspace_exists
                == Some(false) || facts.current == Some(true) || facts.conflicts is Some)
        }),
{
}

/// A landing ripples to every other open lane, and to no other.
pub proof fn law_fan_out_reaches_every_peer(
    records: Seq<LaneRecord>,
    landed: Seq<char>,
    record: LaneRecord,
)
    ensures
        records.filter(is_peer(landed)).contains(record) <==> records.contains(record)
            && record.lifecycle == LaneLifecycle::Open && record.name@ != landed,
{
    let keep = is_peer(landed);
    if records.filter(keep).contains(record) {
        let k = choose|k: int|
            0 <= k < records.filter(keep).len() && records.filter(keep)[k] == record;
        records.lemma_filter_pred(keep, k);
        records.lemma_filter_contains_rev(keep, record);
    }
    if records.contains(record) && record.lifecycle == LaneLifecycle::Open && record.name@ != landed {
        let i = choose|i: int| 0 <= i < records.len() && records[i] == record;
        records.lemma_filter_contains(keep, i);
    }
}

/// A sync resolves conflicts by policy exactly where there are policies and this
/// is not switched off.
pub proof fn law_policies_are_in_effect(workspace: NaviWorkspace)
    ensures
        workspace.config.resolve@.len() == 0 ==> !workspace.resolves_on_sync(),
        !workspace.config.lane.auto_resolve ==> !workspace.resolves_on_sync(),
        workspace.config.lane.auto_resolve && workspace.config.resolve@.len() > 0
            ==> workspace.resolves_on_sync(),
{
}

/// A sync goes on to its end: it looks for the workspace, snapshots it, asks
/// whether it is behind, and where it is, rebases it and brings its files up to
/// date; conflicts are then asked for, resolved once by policy and asked for
/// again, and what is out of scope is dropped on request.
pub proof fn law_sync_goes_through(
    policies: bool,
    name: Seq<char>,
    write_set: Seq<Seq<char>>,
    head: Seq<char>,
    drop_unscoped: bool,
    stale: bool,
    conflicts: Vec<LaneRev>,
    changed: Vec<String>,
)
    ensures
        ({
            let start = SyncFacts {
                workspace_exists: None,
                recovered_stale: None,
                synced: None,
                rebased: false,
                refreshed: false,
                conflicts: None,
                policies_applied: false,
                changed: None,
                dropped: false,
            };
            let there = SyncFacts { workspace_exists: Some(true), ..start };
            let saved = SyncFacts { recovered_stale: Some(stale), ..there };
            let ahead = SyncFacts { synced: Some(true), ..saved };
            let behind = SyncFacts { synced: Some(false), ..saved };
            let rebased = SyncFacts { rebased: true, ..behind };
            let fresh = SyncFacts { refreshed: true, ..rebased };
            let known = SyncFacts { conflicts: Some(conflicts), ..fresh };
            let resolved = SyncFacts { policies_applied: true, ..fresh };
            let again = SyncFacts { policies_applied: true, ..known };
            let diffed = SyncFacts { changed: Some(changed), ..again };
            let dropped = SyncFacts { dropped: true, ..diffed };
            let next = |facts: SyncFacts|
                sync_next(policies, name, write_set, head, drop_unscoped, facts);
            &&& next(start) is AskWorkspace
            &&& next(SyncFacts { workspace_exists: Some(false), ..start }) is Done
            &&& next(there) is Snapshot
            &&& next(saved) is AskSynced
            &&& next(ahead) is AskConflicts
            &&& next(behind) is Rebase
            &&& next(rebased) is Refresh
            &&& next(fresh) is AskConflicts
            &&& policies && conflicts@.len() > 0 ==> next(known) is ApplyPolicies
            &&& next(resolved) is AskConflicts
            &&& drop_unscoped ==> next(again) is AskChanged
            &&& !drop_unscoped ==> next(again) is Done
            &&& drop_unscoped && dropped_paths(Some(changed), write_set).len() > 0 ==> next(diffed)
                is Drop
            &&& drop_unscoped && dropped_paths(Some(changed), write_set).len() == 0 ==> next(diffed)
                is Done
            &&& next(dropped) is Done
        }),
{
}

/// A new head reaches a peer that is not on it: it is snapshotted, rebased,
/// brought up to date and asked for its conflicts, and only then is done.
pub proof fn law_fan_out_goes_through(name: Seq<char>, head: Seq<char>, conflicts: usize)
    ensures
        ({
            let start = PeerFacts {
                workspace_exists: None,
                current: None,
                snapshotted: false,
                rebased: false,
                recovered: false,
                conflicts: None,
                error: None,
            };
            let there = PeerFacts { workspace_exists: Some(true), ..start };
            let behind = PeerFacts { current: Some(false), ..there };
            let saved = PeerFacts { snapshotted: true, ..behind };
            let rebased = PeerFacts { rebased: true, ..saved };
            let fresh = PeerFacts { recovered: true, ..rebased };
            let known = PeerFacts { conflicts: Some(conflicts), ..fresh };
            &&& peer_next(name, head, start) is AskWorkspace
            &&& peer_next(name, head, PeerFacts { workspace_exists: Some(false), ..start }) is Done
            &&& peer_next(name, head, there) is AskCurrent
            &&& peer_next(name, head, PeerFacts { current: Some(true), ..there }) is Done
            &&& peer_next(name, head, behind) is Snapshot
            &&& peer_next(name, head, saved) is Rebase
            &&& peer_next(name, head, rebased) is Recover
            &&& peer_next(name, head, fresh) is AskConflicts
            &&& peer_next(name, head, known) is Done
        }),
{
}

} // verus!
