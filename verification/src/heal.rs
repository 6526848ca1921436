//! The divergence healer.
//!
//! For each divergent change, the sibling minted by the newest operation is
//! kept and the stale siblings are abandoned, with the one-writer law encoded:
//! changes whose stale siblings are another workspace's working copy, or carry
//! stacked descendants, are skipped for manual review. So are changes where
//! healing would abandon part of the landing target for a stray, or work for
//! an empty shell. The whole batch is a single undoable jj operation.

use vstd::prelude::*;

use crate::engine::{DivergentChange, DivergentSibling};
use crate::error::{self, Error, ErrorKind, Result};
use crate::jj::{self, JjRequest};
use crate::text::{
    self, cat2, cat3, cat5, cat7, copy, copy_all, has_prefix, joined, push_all, same, size_number,
};

verus! {

/// What a heal is asked to do.
#[derive(Debug, PartialEq, Eq)]
pub struct HealOptions {
    /// Only heal changes whose id starts with one of these prefixes.
    pub changes: Vec<String>,
    /// Only heal changes where every sibling was minted by my operations.
    pub mine: bool,
    /// Execute the plan instead of printing it.
    pub apply: bool,
    /// Maximum number of changes healed per run.
    pub limit: usize,
    /// Where the newest sibling is empty, keep the newest one with content.
    pub prefer_content: bool,
    /// Emit a machine envelope.
    pub json: bool,
}

/// What the repo says of a sibling beside its provenance.
#[derive(Clone, Copy, Debug, PartialEq, Eq, Structural)]
pub struct SiblingFacts {
    /// The commit changes nothing.
    pub empty: bool,
    /// The commit is in the landing target's ancestry.
    pub in_target: bool,
}

/// A divergent change with what the repo says of its siblings, in the same
/// order; a sibling without an entry has content and is not in the target.
#[derive(Debug, PartialEq, Eq)]
pub struct HealCandidate {
    pub change: DivergentChange,
    pub facts: Vec<SiblingFacts>,
}

/// A change that will be healed.
#[derive(Clone, Copy, Debug, PartialEq, Eq, Structural)]
pub struct PlannedHeal {
    /// Position of the candidate.
    pub candidate: usize,
    /// Position of the sibling that is kept.
    pub keep: usize,
}

/// A change that is left for manual review.
#[derive(Debug, PartialEq, Eq)]
pub struct SkippedHeal {
    /// Position of the candidate.
    pub candidate: usize,
    pub reason: String,
}

/// What a heal will do.
#[derive(Debug, PartialEq, Eq)]
pub struct HealPlan {
    pub planned: Vec<PlannedHeal>,
    pub skipped: Vec<SkippedHeal>,
    /// Number of changes that the options exclude.
    pub filtered: usize,
    /// Number of changes that the limit leaves for another run.
    pub over_limit: usize,
}

// ---------------------------------------------------------------------------
// Deciding

/// The change is one that the options ask for.
pub open spec fn wanted(candidate: HealCandidate, options: HealOptions, me: Seq<char>) -> bool {
    &&& options.changes@.len() == 0 || exists|i: int|
        0 <= i < options.changes@.len() && text::starts_with(
            candidate.change.change_id@,
            (#[trigger] options.changes@[i])@,
        )
    &&& options.mine ==> forall|i: int|
        0 <= i < candidate.change.siblings@.len() ==> minted_by(
            #[trigger] candidate.change.siblings@[i],
            me,
        )
}

/// The sibling comes from an operation of this user.
pub open spec fn minted_by(sibling: DivergentSibling, me: Seq<char>) -> bool {
    match sibling.op {
        Some(op) => op.username@ == me,
        None => false,
    }
}

impl HealCandidate {
    /// The sibling at `i` changes nothing.
    pub open spec fn empty_at(self, i: int) -> bool {
        0 <= i < self.facts@.len() && self.facts@[i].empty
    }

    /// The sibling at `i` is in the landing target's ancestry.
    pub open spec fn in_target_at(self, i: int) -> bool {
        0 <= i < self.facts@.len() && self.facts@[i].in_target
    }

    /// The position of the first sibling with content, from `i` on.
    pub open spec fn content_from(self, i: int) -> Option<int>
        decreases self.change.siblings@.len() - i,
    {
        if i < 0 || i >= self.change.siblings@.len() {
            None
        } else if !self.empty_at(i) {
            Some(i)
        } else {
            self.content_from(i + 1)
        }
    }

    /// The position of the sibling to keep: the newest, unless it is empty and
    /// content is preferred.
    pub open spec fn keep(self, prefer_content: bool) -> int {
        if prefer_content && self.empty_at(0) {
            match self.content_from(0) {
                Some(i) => i,
                None => 0,
            }
        } else {
            0
        }
    }

    /// The sibling at `i` is stale and is some workspace's working copy.
    pub open spec fn live_at(self, keep: int, i: int) -> bool {
        i != keep && self.change.siblings@[i].wc_of@.len() > 0
    }

    /// The sibling at `i` is stale and has children.
    pub open spec fn stacked_at(self, keep: int, i: int) -> bool {
        i != keep && self.change.siblings@[i].has_children
    }

    /// The sibling at `i` is stale and in the landing target's ancestry, and
    /// the one to keep is not.
    pub open spec fn mainline_at(self, keep: int, i: int) -> bool {
        i != keep && self.in_target_at(i) && !self.in_target_at(keep)
    }

    /// The sibling at `i` is stale and has content, and the one to keep is
    /// empty.
    pub open spec fn shell_at(self, keep: int, i: int) -> bool {
        i != keep && !self.empty_at(i) && self.empty_at(keep)
    }
}

/// The rules by which a stale sibling blocks a heal, in the order in which
/// they are applied.
#[derive(Clone, Copy, Debug, PartialEq, Eq, Structural)]
pub enum HealGuard {
    /// It is a working copy.
    Live,
    /// It has stacked descendants.
    Stacked,
    /// It belongs to the landing target.
    Mainline,
    /// It has content and the one to keep has none.
    Shell,
}

impl HealCandidate {
    /// The sibling at `i` trips the guard.
    pub open spec fn trips(self, guard: HealGuard, keep: int, i: int) -> bool {
        match guard {
            HealGuard::Live => self.live_at(keep, i),
            HealGuard::Stacked => self.stacked_at(keep, i),
            HealGuard::Mainline => self.mainline_at(keep, i),
            HealGuard::Shell => self.shell_at(keep, i),
        }
    }

    /// The position of the first sibling, from `i` on, that trips the guard.
    pub open spec fn tripped_from(self, guard: HealGuard, keep: int, i: int) -> Option<int>
        decreases self.change.siblings@.len() - i,
    {
        if i < 0 || i >= self.change.siblings@.len() {
            None
        } else if self.trips(guard, keep, i) {
            Some(i)
        } else {
            self.tripped_from(guard, keep, i + 1)
        }
    }

    /// Why the change cannot be healed, if it cannot.
    pub open spec fn blocked(self, keep: int) -> Option<Seq<char>> {
        let siblings = self.change.siblings@;
        if let Some(i) = self.tripped_from(HealGuard::Live, keep, 0) {
            Some(
                "stale sibling "@ + siblings[i].commit_id@ + " is the working copy of workspace '"@
                    + text::join(text::views(siblings[i].wc_of@), "', '"@) + "'"@,
            )
        } else if let Some(i) = self.tripped_from(HealGuard::Stacked, keep, 0) {
            Some(
                "stale sibling "@ + siblings[i].commit_id@
                    + " has stacked descendants; heal manually"@,
            )
        } else if let Some(i) = self.tripped_from(HealGuard::Mainline, keep, 0) {
            Some(
                "stale sibling "@ + siblings[i].commit_id@
                    + " is in the landing target's ancestry and the newest sibling is not"@,
            )
        } else if let Some(i) = self.tripped_from(HealGuard::Shell, keep, 0) {
            Some(
                "stale sibling "@ + siblings[i].commit_id@
                    + " has content and the newest sibling is empty; --prefer-content keeps the content"@,
            )
        } else {
            None
        }
    }
}

/// A planned heal as mathematical values.
pub struct PlanView {
    /// Candidate and kept sibling.
    pub planned: Seq<(int, int)>,
    /// Candidate and reason.
    pub skipped: Seq<(int, Seq<char>)>,
    pub filtered: nat,
    pub over_limit: nat,
}

impl View for HealPlan {
    type V = PlanView;

    open spec fn view(&self) -> PlanView {
        PlanView {
            planned: self.planned@.map_values(|p: PlannedHeal| (p.candidate as int, p.keep as int)),
            skipped: self.skipped@.map_values(|s: SkippedHeal| (s.candidate as int, s.reason@)),
            filtered: self.filtered as nat,
            over_limit: self.over_limit as nat,
        }
    }
}

/// The plan for the first candidates, extended by one more.
pub open spec fn plan_step(
    plan: PlanView,
    position: int,
    candidate: HealCandidate,
    options: HealOptions,
    me: Seq<char>,
) -> PlanView {
    let keep = candidate.keep(options.prefer_content);
    if !wanted(candidate, options, me) {
        PlanView { filtered: plan.filtered + 1, ..plan }
    } else if let Some(reason) = candidate.blocked(keep) {
        PlanView { skipped: plan.skipped.push((position, reason)), ..plan }
    } else if plan.planned.len() >= options.limit {
        PlanView { over_limit: plan.over_limit + 1, ..plan }
    } else {
        PlanView { planned: plan.planned.push((position, keep)), ..plan }
    }
}

/// The plan for the first `n` candidates.
pub open spec fn plan_of(
    candidates: Seq<HealCandidate>,
    options: HealOptions,
    me: Seq<char>,
    n: nat,
) -> PlanView
    decreases n,
{
    if n == 0 {
        PlanView { planned: Seq::empty(), skipped: Seq::empty(), filtered: 0, over_limit: 0 }
    } else {
        plan_step(
            plan_of(candidates, options, me, (n - 1) as nat),
            n - 1,
            candidates[n - 1],
            options,
            me,
        )
    }
}

fn is_wanted(candidate: &HealCandidate, options: &HealOptions, me: &str) -> (res: bool)
    ensures
        res == wanted(*candidate, *options, me@),
{
    if options.changes.len() > 0 {
        let mut found = false;
        let mut i: usize = 0;
        while i < options.changes.len() && !found
            invariant
                i <= options.changes@.len(),
                found ==> exists|k: int|
                    0 <= k < options.changes@.len() && text::starts_with(
                        candidate.change.change_id@,
                        (#[trigger] options.changes@[k])@,
                    ),
                !found ==> forall|k: int|
                    0 <= k < i ==> !text::starts_with(
                        candidate.change.change_id@,
                        (#[trigger] options.changes@[k])@,
                    ),
            decreases options.changes@.len() - i,
        {
            if has_prefix(candidate.change.change_id.as_str(), options.changes[i].as_str()) {
                found = true;
            }
            i = i + 1;
        }
        if !found {
            return false;
        }
    }
    if options.mine {
        let mut i: usize = 0;
        while i < candidate.change.siblings.len()
            invariant
                i <= candidate.change.siblings@.len(),
                options.mine,
                forall|k: int|
                    0 <= k < i ==> minted_by(#[trigger] candidate.change.siblings@[k], me@),
            decreases candidate.change.siblings@.len() - i,
        {
            let mine = match &candidate.change.siblings[i].op {
                Some(op) => same(op.username.as_str(), me),
                None => false,
            };
            if !mine {
                assert(!minted_by(candidate.change.siblings@[i as int], me@));
                return false;
            }
            i = i + 1;
        }
    }
    true
}

impl HealCandidate {
    fn is_empty_at(&self, i: usize) -> (res: bool)
        ensures
            res == self.empty_at(i as int),
    {
        i < self.facts.len() && self.facts[i].empty
    }

    fn is_in_target_at(&self, i: usize) -> (res: bool)
        ensures
            res == self.in_target_at(i as int),
    {
        i < self.facts.len() && self.facts[i].in_target
    }

    /// The position of the sibling to keep.
    pub fn sibling_to_keep(&self, prefer_content: bool) -> (res: usize)
        ensures
            res == self.keep(prefer_content),
    {
        if prefer_content && self.is_empty_at(0) {
            let mut i: usize = 0;
            while i < self.change.siblings.len()
                invariant
                    i <= self.change.siblings@.len(),
                    self.content_from(0) == self.content_from(i as int),
                    prefer_content && self.empty_at(0),
                decreases self.change.siblings@.len() - i,
            {
                if !self.is_empty_at(i) {
                    return i;
                }
                i = i + 1;
            }
        }
        0
    }

    fn find_tripped(&self, guard: HealGuard, keep: usize) -> (res: Option<usize>)
        ensures
            match res {
                Some(i) => self.tripped_from(guard, keep as int, 0) == Some(i as int) && i
                    < self.change.siblings@.len(),
                None => self.tripped_from(guard, keep as int, 0) is None,
            },
    {
        let mut i: usize = 0;
        while i < self.change.siblings.len()
            invariant
                i <= self.change.siblings@.len(),
                self.tripped_from(guard, keep as int, 0) == self.tripped_from(
                    guard,
                    keep as int,
                    i as int,
                ),
            decreases self.change.siblings@.len() - i,
        {
            if i != keep {
                let sibling = &self.change.siblings[i];
                let hit = match guard {
                    HealGuard::Live => sibling.wc_of.len() > 0,
                    HealGuard::Stacked => sibling.has_children,
                    HealGuard::Mainline => self.is_in_target_at(i) && !self.is_in_target_at(keep),
                    HealGuard::Shell => !self.is_empty_at(i) && self.is_empty_at(keep),
                };
                if hit {
                    return Some(i);
                }
            }
            i = i + 1;
        }
        None
    }

    fn block_reason(&self, keep: usize) -> (res: Option<String>)
        ensures
            text::opt_view(res) == self.blocked(keep as int),
    {
        if let Some(i) = self.find_tripped(HealGuard::Live, keep) {
            let sibling = &self.change.siblings[i];
            return Some(
                cat5(
                    "stale sibling ",
                    sibling.commit_id.as_str(),
                    " is the working copy of workspace '",
                    joined(&sibling.wc_of, "', '").as_str(),
                    "'",
                ),
            );
        }
        if let Some(i) = self.find_tripped(HealGuard::Stacked, keep) {
            return Some(
                cat3(
                    "stale sibling ",
                    self.change.siblings[i].commit_id.as_str(),
                    " has stacked descendants; heal manually",
                ),
            );
        }
        if let Some(i) = self.find_tripped(HealGuard::Mainline, keep) {
            return Some(
                cat3(
                    "stale sibling ",
                    self.change.siblings[i].commit_id.as_str(),
                    " is in the landing target's ancestry and the newest sibling is not",
                ),
            );
        }
        if let Some(i) = self.find_tripped(HealGuard::Shell, keep) {
            return Some(
                cat3(
                    "stale sibling ",
                    self.change.siblings[i].commit_id.as_str(),
                    " has content and the newest sibling is empty; --prefer-content keeps the content",
                ),
            );
        }
        None
    }
}

/// The number of changes that a plan speaks of.
pub open spec fn accounted(plan: PlanView) -> nat {
    plan.planned.len() + plan.skipped.len() + plan.filtered + plan.over_limit
}

/// Decide what a heal does to each divergent change.
pub fn plan_heal(candidates: &Vec<HealCandidate>, options: &HealOptions, me: &str) -> (res: HealPlan)
    ensures
        res@ == plan_of(candidates@, *options, me@, candidates@.len()),
        plan_fits(res@, candidates@.len()),
{
    let mut plan = HealPlan {
        planned: Vec::new(),
        skipped: Vec::new(),
        filtered: 0,
        over_limit: 0,
    };
    let mut i: usize = 0;
    proof {
        assert(plan@.planned =~= Seq::<(int, int)>::empty());
        assert(plan@.skipped =~= Seq::<(int, Seq<char>)>::empty());
    }
    while i < candidates.len()
        invariant
            i <= candidates@.len(),
            plan@ == plan_of(candidates@, *options, me@, i as nat),
            accounted(plan@) == i,
        decreases candidates@.len() - i,
    {
        let candidate = &candidates[i];
        let ghost before = plan@;
        if !is_wanted(candidate, options, me) {
            plan.filtered = plan.filtered + 1;
            assert(plan@.planned =~= before.planned && plan@.skipped =~= before.skipped);
        } else {
            let keep: usize = candidate.sibling_to_keep(options.prefer_content);
            match candidate.block_reason(keep) {
                Some(reason) => {
                    let ghost entry = (i as int, reason@);
                    plan.skipped.push(SkippedHeal { candidate: i, reason });
                    assert(plan@.skipped =~= before.skipped.push(entry));
                    assert(plan@.planned =~= before.planned);
                },
                None => {
                    if plan.planned.len() >= options.limit {
                        plan.over_limit = plan.over_limit + 1;
                        assert(plan@.planned =~= before.planned && plan@.skipped
                            =~= before.skipped);
                    } else {
                        plan.planned.push(PlannedHeal { candidate: i, keep });
                        assert(plan@.planned =~= before.planned.push((i as int, keep as int)));
                        assert(plan@.skipped =~= before.skipped);
                    }
                },
            }
        }
        i = i + 1;
    }
    proof {
        law_heal_accounts_for_every_change(candidates@, *options, me@, candidates@.len());
    }
    plan
}

// ---------------------------------------------------------------------------
// Applying

/// The ids of the siblings of a change but the one at `keep`.
pub open spec fn loser_ids(siblings: Seq<DivergentSibling>, keep: int) -> Seq<Seq<char>>
    decreases siblings.len(),
{
    if siblings.len() == 0 {
        Seq::empty()
    } else if siblings.len() - 1 == keep {
        loser_ids(siblings.drop_last(), keep)
    } else {
        loser_ids(siblings.drop_last(), keep).push(siblings.last().commit_id@)
    }
}

/// The ids that a plan abandons.
pub open spec fn abandoned_ids(candidates: Seq<HealCandidate>, planned: Seq<(int, int)>) -> Seq<
    Seq<char>,
>
    decreases planned.len(),
{
    if planned.len() == 0 {
        Seq::empty()
    } else {
        abandoned_ids(candidates, planned.drop_last()) + loser_ids(
            candidates[planned.last().0].change.siblings@,
            planned.last().1,
        )
    }
}

/// The plan speaks of these candidates.
pub open spec fn plan_fits(plan: PlanView, count: nat) -> bool {
    &&& forall|i: int| 0 <= i < plan.planned.len() ==> 0 <= (#[trigger] plan.planned[i]).0 < count
    &&& forall|i: int| 0 <= i < plan.skipped.len() ==> 0 <= (#[trigger] plan.skipped[i]).0 < count
}

fn losers(siblings: &Vec<DivergentSibling>, keep: usize) -> (res: Vec<String>)
    ensures
        text::views(res@) == loser_ids(siblings@, keep as int),
{
    broadcast use text::lemma_views_push;

    let mut out: Vec<String> = Vec::new();
    let mut i: usize = 0;
    proof {
        text::lemma_views_empty(out@);
        assert(siblings@.take(0) =~= Seq::<DivergentSibling>::empty());
    }
    while i < siblings.len()
        invariant
            i <= siblings@.len(),
            text::views(out@) == loser_ids(siblings@.take(i as int), keep as int),
        decreases siblings@.len() - i,
    {
        assert(siblings@.take(i + 1).drop_last() =~= siblings@.take(i as int));
        if i != keep {
            out.push(copy(siblings[i].commit_id.as_str()));
        }
        i = i + 1;
    }
    assert(siblings@.take(i as int) =~= siblings@);
    out
}

/// The ids of all siblings that a plan abandons.
pub fn plan_losers(candidates: &Vec<HealCandidate>, plan: &HealPlan) -> (res: Vec<String>)
    requires
        plan_fits(plan@, candidates@.len()),
    ensures
        text::views(res@) == abandoned_ids(candidates@, plan@.planned),
{
    let mut out: Vec<String> = Vec::new();
    let mut i: usize = 0;
    let ghost all = plan@.planned;
    proof {
        text::lemma_views_empty(out@);
        assert(all.take(0) =~= Seq::<(int, int)>::empty());
    }
    while i < plan.planned.len()
        invariant
            i <= plan.planned@.len(),
            all == plan@.planned,
            all.len() == plan.planned@.len(),
            plan_fits(plan@, candidates@.len()),
            text::views(out@) == abandoned_ids(candidates@, all.take(i as int)),
        decreases plan.planned@.len() - i,
    {
        let heal = plan.planned[i];
        proof {
            assert(all[i as int] == (heal.candidate as int, heal.keep as int));
            assert(0 <= plan@.planned[i as int].0 < candidates@.len());
            assert(all.take(i + 1).drop_last() =~= all.take(i as int));
            assert(all.take(i + 1).last() == all[i as int]);
        }
        let more = losers(&candidates[heal.candidate].change.siblings, heal.keep);
        push_all(&mut out, &more);
        i = i + 1;
    }
    assert(all.take(i as int) =~= all);
    out
}

/// The command that applies a plan, one operation for the whole batch; none
/// where there is nothing to apply or only a plan was asked for.
pub fn heal_request(candidates: &Vec<HealCandidate>, plan: &HealPlan, apply: bool) -> (res: Option<
    JjRequest,
>)
    requires
        plan_fits(plan@, candidates@.len()),
    ensures
        match res {
            Some(request) => apply && plan@.planned.len() > 0 && request@ == jj::abandon_args(
                abandoned_ids(candidates@, plan@.planned),
            ),
            None => !apply || plan@.planned.len() == 0,
        },
{
    assert(plan@.planned.len() == plan.planned@.len());
    if apply && plan.planned.len() > 0 {
        let ids = plan_losers(candidates, plan);
        Some(JjRequest::abandon_commits(&ids))
    } else {
        None
    }
}

// ---------------------------------------------------------------------------
// Laws

/// A heal never abandons a working copy, a commit that others are stacked on,
/// part of the landing target in favour of a stray, or work in favour of an
/// empty shell; and only changes that were asked for are healed.
pub proof fn law_heal_is_safe(
    candidates: Seq<HealCandidate>,
    options: HealOptions,
    me: Seq<char>,
    n: nat,
    p: int,
    i: int,
)
    requires
        n <= candidates.len(),
        0 <= p < plan_of(candidates, options, me, n).planned.len(),
        0 <= i < candidates[plan_of(candidates, options, me, n).planned[p].0].change.siblings@.len(),
        i != plan_of(candidates, options, me, n).planned[p].1,
    ensures
        ({
            let (c, keep) = plan_of(candidates, options, me, n).planned[p];
            let candidate = candidates[c];
            let loser = candidate.change.siblings@[i];
            &&& 0 <= c < n
            &&& wanted(candidate, options, me)
            &&& loser.wc_of@.len() == 0
            &&& !loser.has_children
            &&& candidate.in_target_at(i) ==> candidate.in_target_at(keep)
            &&& candidate.empty_at(keep) ==> candidate.empty_at(i)
        }),
    decreases n,
{
    let before = plan_of(candidates, options, me, (n - 1) as nat);
    if p < before.planned.len() {
        law_heal_is_safe(candidates, options, me, (n - 1) as nat, p, i);
    } else {
        let candidate = candidates[n - 1];
        let keep = candidate.keep(options.prefer_content);
        lemma_not_tripped(candidate, HealGuard::Live, keep, 0, i);
        lemma_not_tripped(candidate, HealGuard::Stacked, keep, 0, i);
        lemma_not_tripped(candidate, HealGuard::Mainline, keep, 0, i);
        lemma_not_tripped(candidate, HealGuard::Shell, keep, 0, i);
    }
}

proof fn lemma_not_tripped(c: HealCandidate, guard: HealGuard, keep: int, from: int, i: int)
    requires
        0 <= from <= i < c.change.siblings@.len(),
        c.tripped_from(guard, keep, from) is None,
    ensures
        !c.trips(guard, keep, i),
    decreases c.change.siblings@.len() - from,
{
    if from < i {
        lemma_not_tripped(c, guard, keep, from + 1, i);
    }
}

/// The newest sibling wins, unless it is empty and content is preferred: then
/// a sibling with content wins, and none that has content comes before it.
pub proof fn law_newest_wins(candidate: HealCandidate, prefer_content: bool)
    ensures
        !prefer_content || !candidate.empty_at(0) ==> candidate.keep(prefer_content) == 0,
        prefer_content && candidate.empty_at(0) && candidate.keep(prefer_content) != 0 ==> {
            let keep = candidate.keep(prefer_content);
            &&& keep < candidate.change.siblings@.len()
            &&& !candidate.empty_at(keep)
            &&& forall|i: int| 0 <= i < keep ==> #[trigger] candidate.empty_at(i)
        },
{
    lemma_content_from(candidate, 0);
}

proof fn lemma_content_from(candidate: HealCandidate, from: int)
    requires
        0 <= from,
    ensures
        match candidate.content_from(from) {
            Some(k) => from <= k < candidate.change.siblings@.len() && !candidate.empty_at(k)
                && forall|i: int| from <= i < k ==> #[trigger] candidate.empty_at(i),
            None => true,
        },
    decreases candidate.change.siblings@.len() - from,
{
    if from < candidate.change.siblings@.len() && candidate.empty_at(from) {
        lemma_content_from(candidate, from + 1);
    }
}

/// A run heals no more changes than the limit, speaks of every divergent
/// change exactly once, and names only changes that exist.
pub proof fn law_heal_accounts_for_every_change(
    candidates: Seq<HealCandidate>,
    options: HealOptions,
    me: Seq<char>,
    n: nat,
)
    requires
        n <= candidates.len(),
    ensures
        plan_of(candidates, options, me, n).planned.len() <= options.limit,
        accounted(plan_of(candidates, options, me, n)) == n,
        plan_fits(plan_of(candidates, options, me, n), n),
    decreases n,
{
    if n > 0 {
        law_heal_accounts_for_every_change(candidates, options, me, (n - 1) as nat);
    }
}

// ---------------------------------------------------------------------------
// Reporting

/// How a sibling is described.
pub open spec fn sibling_text(sibling: DivergentSibling) -> Seq<char> {
    let provenance = match sibling.op {
        Some(op) => "op "@ + op.op_id@ + " by "@ + op.username@ + "@"@ + op.hostname@ + " ("@
            + op.description@ + ")"@,
        None => "op unknown"@,
    };
    let description = if sibling.description@.len() == 0 {
        "(no description)"@
    } else {
        sibling.description@
    };
    sibling.commit_id@ + "  "@ + description + "  ["@ + provenance + "]"@
}

/// Describe a sibling: its id, its description and the operation it came from.
pub fn describe_sibling(sibling: &DivergentSibling) -> (res: String)
    ensures
        res@ == sibling_text(*sibling),
{
    let provenance = match &sibling.op {
        Some(op) => {
            let mut out = cat7(
                "op ",
                op.op_id.as_str(),
                " by ",
                op.username.as_str(),
                "@",
                op.hostname.as_str(),
                " (",
            );
            out.append(op.description.as_str());
            out.append(")");
            out
        },
        None => copy("op unknown"),
    };
    let empty = text::char_count(sibling.description.as_str()) == 0;
    let description = if empty {
        "(no description)"
    } else {
        sibling.description.as_str()
    };
    let mut out = cat5(sibling.commit_id.as_str(), "  ", description, "  [", provenance.as_str());
    out.append("]");
    out
}

/// How the content of a stale sibling compares with the one that is kept.
pub open spec fn content_text(diff: Option<Seq<Seq<char>>>) -> Seq<char> {
    match diff {
        None => "          content diff unavailable"@,
        Some(paths) => if paths.len() == 0 {
            "          identical tree to keep"@
        } else {
            "          differs from keep: "@ + text::join(paths, ", "@)
        },
    }
}

/// The view of an optional list of paths.
pub open spec fn diff_view(diff: Option<Vec<String>>) -> Option<Seq<Seq<char>>> {
    match diff {
        Some(paths) => Some(text::views(paths@)),
        None => None,
    }
}

/// What is known of the paths in which the sibling at `i` differs from the one
/// that is kept.
pub open spec fn diff_at(diffs: Seq<Option<Vec<String>>>, i: int) -> Option<Seq<Seq<char>>> {
    if 0 <= i < diffs.len() {
        diff_view(diffs[i])
    } else {
        None
    }
}

/// The lines on the first `n` siblings of a change that is healed.
pub open spec fn sibling_lines(
    siblings: Seq<DivergentSibling>,
    keep: int,
    diffs: Seq<Option<Vec<String>>>,
    n: nat,
) -> Seq<Seq<char>>
    decreases n,
{
    if n == 0 {
        Seq::empty()
    } else {
        let i = n - 1;
        let before = sibling_lines(siblings, keep, diffs, i as nat);
        if i == keep {
            before.push("  keep    "@ + sibling_text(siblings[i]))
        } else {
            before.push("  abandon "@ + sibling_text(siblings[i])).push(
                content_text(diff_at(diffs, i)),
            )
        }
    }
}

/// The content diffs of the `p`th planned heal.
pub open spec fn diffs_of(diffs: Seq<Vec<Option<Vec<String>>>>, p: int) -> Seq<Option<Vec<String>>> {
    if 0 <= p < diffs.len() {
        diffs[p]@
    } else {
        Seq::empty()
    }
}

/// The lines on the first `n` changes that are healed.
pub open spec fn planned_lines(
    candidates: Seq<HealCandidate>,
    planned: Seq<(int, int)>,
    diffs: Seq<Vec<Option<Vec<String>>>>,
    applying: bool,
    n: nat,
) -> Seq<Seq<char>>
    decreases n,
{
    if n == 0 {
        Seq::empty()
    } else {
        let p = n - 1;
        let change = candidates[planned[p].0].change;
        let verb = if applying {
            "healing"@
        } else {
            "would heal"@
        };
        planned_lines(candidates, planned, diffs, applying, p as nat).push(
            verb + " change "@ + change.change_id@,
        ) + sibling_lines(
            change.siblings@,
            planned[p].1,
            diffs_of(diffs, p),
            change.siblings@.len(),
        )
    }
}

/// The lines on the first `n` changes that are skipped.
pub open spec fn skipped_lines(
    candidates: Seq<HealCandidate>,
    skipped: Seq<(int, Seq<char>)>,
    n: nat,
) -> Seq<Seq<char>>
    decreases n,
{
    if n == 0 {
        Seq::empty()
    } else {
        let p = n - 1;
        skipped_lines(candidates, skipped, p as nat).push(
            "skip change "@ + candidates[skipped[p].0].change.change_id@,
        ).push("  reason: "@ + skipped[p].1)
    }
}

/// The report of a plan.
pub open spec fn plan_lines(
    candidates: Seq<HealCandidate>,
    plan: PlanView,
    diffs: Seq<Vec<Option<Vec<String>>>>,
    applying: bool,
) -> Seq<Seq<char>> {
    let rows = planned_lines(candidates, plan.planned, diffs, applying, plan.planned.len())
        + skipped_lines(candidates, plan.skipped, plan.skipped.len());
    let filtered = if plan.filtered > 0 {
        rows.push(
            "("@ + text::decimal(plan.filtered) + " divergent change(s) excluded by filters)"@,
        )
    } else {
        rows
    };
    if plan.over_limit > 0 {
        filtered.push(
            "("@ + text::decimal(plan.over_limit)
                + " healable change(s) beyond --limit; rerun to continue)"@,
        )
    } else {
        filtered
    }
}

fn render_content(diff: &Option<Vec<String>>) -> (res: String)
    ensures
        res@ == content_text(diff_view(*diff)),
{
    match diff {
        None => copy("          content diff unavailable"),
        Some(paths) => {
            assert(text::views(paths@).len() == paths@.len());
            if paths.len() == 0 {
                copy("          identical tree to keep")
            } else {
                cat2("          differs from keep: ", joined(paths, ", ").as_str())
            }
        },
    }
}

fn render_siblings(
    siblings: &Vec<DivergentSibling>,
    keep: usize,
    diffs: &Vec<Option<Vec<String>>>,
) -> (res: Vec<String>)
    ensures
        text::views(res@) == sibling_lines(siblings@, keep as int, diffs@, siblings@.len()),
{
    broadcast use text::lemma_views_push;

    let mut out: Vec<String> = Vec::new();
    let mut i: usize = 0;
    proof {
        text::lemma_views_empty(out@);
    }
    while i < siblings.len()
        invariant
            i <= siblings@.len(),
            text::views(out@) == sibling_lines(siblings@, keep as int, diffs@, i as nat),
        decreases siblings@.len() - i,
    {
        let described = describe_sibling(&siblings[i]);
        if i == keep {
            out.push(cat2("  keep    ", described.as_str()));
        } else {
            out.push(cat2("  abandon ", described.as_str()));
            let content = if i < diffs.len() {
                render_content(&diffs[i])
            } else {
                copy("          content diff unavailable")
            };
            out.push(content);
        }
        i = i + 1;
    }
    out
}

/// Render a plan, one text per line. `diffs` holds, for each planned heal, the
/// paths in which each of its siblings differs from the one that is kept.
pub fn render_plan(
    candidates: &Vec<HealCandidate>,
    plan: &HealPlan,
    diffs: &Vec<Vec<Option<Vec<String>>>>,
    applying: bool,
) -> (res: Vec<String>)
    requires
        plan_fits(plan@, candidates@.len()),
    ensures
        text::views(res@) == plan_lines(candidates@, plan@, diffs@, applying),
{
    broadcast use text::lemma_views_push;

    let ghost view = plan@;
    let mut out: Vec<String> = Vec::new();
    let mut i: usize = 0;
    proof {
        text::lemma_views_empty(out@);
    }
    let verb = if applying {
        "healing"
    } else {
        "would heal"
    };
    let unknown: Vec<Option<Vec<String>>> = Vec::new();
    while i < plan.planned.len()
        invariant
            i <= plan.planned@.len(),
            view == plan@,
            plan_fits(view, candidates@.len()),
            unknown@ =~= Seq::empty(),
            verb@ == (if applying {
                "healing"@
            } else {
                "would heal"@
            }),
            text::views(out@) == planned_lines(
                candidates@,
                view.planned,
                diffs@,
                applying,
                i as nat,
            ),
        decreases plan.planned@.len() - i,
    {
        let heal = plan.planned[i];
        proof {
            assert(view.planned[i as int] == (heal.candidate as int, heal.keep as int));
        }
        let change = &candidates[heal.candidate].change;
        out.push(cat3(verb, " change ", change.change_id.as_str()));
        let rows = if i < diffs.len() {
            render_siblings(&change.siblings, heal.keep, &diffs[i])
        } else {
            render_siblings(&change.siblings, heal.keep, &unknown)
        };
        push_all(&mut out, &rows);
        i = i + 1;
    }
    assert(view.planned.len() == plan.planned@.len());
    let ghost first = text::views(out@);
    let mut j: usize = 0;
    assert(first + skipped_lines(candidates@, view.skipped, 0) =~= first);
    while j < plan.skipped.len()
        invariant
            j <= plan.skipped@.len(),
            view == plan@,
            plan_fits(view, candidates@.len()),
            text::views(out@) == first + skipped_lines(candidates@, view.skipped, j as nat),
        decreases plan.skipped@.len() - j,
    {
        let skip = &plan.skipped[j];
        proof {
            assert(view.skipped[j as int] == (skip.candidate as int, skip.reason@));
        }
        out.push(
            cat2("skip change ", candidates[skip.candidate].change.change_id.as_str()),
        );
        out.push(cat2("  reason: ", skip.reason.as_str()));
        j = j + 1;
        proof {
            let front = skipped_lines(candidates@, view.skipped, (j - 1) as nat);
            let a = "skip change "@ + candidates@[view.skipped[j - 1].0].change.change_id@;
            let b = "  reason: "@ + view.skipped[j - 1].1;
            assert(text::views(out@) =~= (first + front).push(a).push(b));
            assert((first + front).push(a).push(b) =~= first + front.push(a).push(b));
        }
    }
    assert(view.skipped.len() == plan.skipped@.len());
    if plan.filtered > 0 {
        out.push(
            cat3(
                "(",
                size_number(plan.filtered).as_str(),
                " divergent change(s) excluded by filters)",
            ),
        );
    }
    if plan.over_limit > 0 {
        out.push(
            cat3(
                "(",
                size_number(plan.over_limit).as_str(),
                " healable change(s) beyond --limit; rerun to continue)",
            ),
        );
    }
    out
}

/// What closes the report of a heal.
pub open spec fn closing_lines(planned: nat, losers: nat, apply: bool) -> Seq<Seq<char>> {
    if planned == 0 {
        Seq::empty()
    } else if !apply {
        seq![""@, "plan only; rerun with --apply to heal"@]
    } else {
        seq![
            ""@,
            "healed "@ + text::decimal(planned) + " change(s): abandoned "@ + text::decimal(losers)
                + " stale sibling(s) in one operation"@,
            "  undo with: jj op undo"@,
        ]
    }
}

/// The lines after the plan; for an applied one, how much it healed.
pub fn render_closing(planned: usize, losers: usize, apply: bool) -> (res: Vec<String>)
    ensures
        text::views(res@) == closing_lines(planned as nat, losers as nat, apply),
{
    if planned == 0 {
        let out: Vec<String> = Vec::new();
        proof {
            text::lemma_views_empty(out@);
        }
        return out;
    }
    if !apply {
        let out: Vec<String> = vec![copy(""), copy("plan only; rerun with --apply to heal")];
        assert(text::views(out@) =~= closing_lines(planned as nat, losers as nat, apply));
        return out;
    }
    let healed = cat5(
        "healed ",
        size_number(planned).as_str(),
        " change(s): abandoned ",
        size_number(losers).as_str(),
        " stale sibling(s) in one operation",
    );
    let out: Vec<String> = vec![copy(""), healed, copy("  undo with: jj op undo")];
    assert(text::views(out@) =~= closing_lines(planned as nat, losers as nat, apply));
    out
}

/// What is said where nothing diverges.
pub const NOTHING_TO_HEAL: &'static str = "no divergent changes \u{2014} nothing to heal";

/// A stale sibling in machine output.
#[derive(Debug, PartialEq, Eq)]
pub struct AbandonedSibling {
    pub commit_id: String,
    /// Paths in which it differs from the sibling that is kept, where known.
    pub changed_paths_vs_keep: Option<Vec<String>>,
}

/// A healed change in machine output.
#[derive(Debug, PartialEq, Eq)]
pub struct HealedChange {
    pub change_id: String,
    pub keep: String,
    pub abandon: Vec<AbandonedSibling>,
}

/// A skipped change in machine output.
#[derive(Debug, PartialEq, Eq)]
pub struct SkippedChange {
    pub change_id: String,
    pub reason: String,
}

/// The machine output of a heal.
#[derive(Debug, PartialEq, Eq)]
pub struct HealReport {
    pub applied: bool,
    pub healed: Vec<HealedChange>,
    pub skipped: Vec<SkippedChange>,
    pub filtered: usize,
    pub over_limit: usize,
}

/// The machine output lists the same losers as the plan, each with its
/// content diff.
pub open spec fn abandon_matches(
    abandon: Seq<AbandonedSibling>,
    siblings: Seq<DivergentSibling>,
    keep: int,
    diffs: Seq<Option<Vec<String>>>,
    n: nat,
) -> bool
    decreases n,
{
    if n == 0 {
        abandon.len() == 0
    } else if n - 1 == keep {
        abandon_matches(abandon, siblings, keep, diffs, (n - 1) as nat)
    } else {
        &&& abandon.len() > 0
        &&& abandon.last().commit_id@ == siblings[n - 1].commit_id@
        &&& diff_view(abandon.last().changed_paths_vs_keep) == diff_at(diffs, n - 1)
        &&& abandon_matches(abandon.drop_last(), siblings, keep, diffs, (n - 1) as nat)
    }
}

/// The id of the sibling at `keep`, empty where there is none.
pub open spec fn kept_id(siblings: Seq<DivergentSibling>, keep: int) -> Seq<char> {
    if 0 <= keep < siblings.len() {
        siblings[keep].commit_id@
    } else {
        ""@
    }
}

/// The machine output of one healed change.
pub open spec fn healed_matches(
    healed: HealedChange,
    change: DivergentChange,
    keep: int,
    diffs: Seq<Option<Vec<String>>>,
) -> bool {
    &&& healed.change_id@ == change.change_id@
    &&& healed.keep@ == kept_id(change.siblings@, keep)
    &&& abandon_matches(
        healed.abandon@,
        change.siblings@,
        keep,
        diffs,
        change.siblings@.len(),
    )
}

fn copy_diff(diff: &Option<Vec<String>>) -> (res: Option<Vec<String>>)
    ensures
        diff_view(res) == diff_view(*diff),
{
    match diff {
        Some(paths) => Some(copy_all(paths)),
        None => None,
    }
}

fn healed_change(change: &DivergentChange, keep: usize, diffs: &Vec<Option<Vec<String>>>) -> (res:
    HealedChange)
    ensures
        healed_matches(res, *change, keep as int, diffs@),
{
    let mut abandon: Vec<AbandonedSibling> = Vec::new();
    let mut i: usize = 0;
    while i < change.siblings.len()
        invariant
            i <= change.siblings@.len(),
            abandon_matches(abandon@, change.siblings@, keep as int, diffs@, i as nat),
        decreases change.siblings@.len() - i,
    {
        if i != keep {
            let ghost before = abandon@;
            let paths = if i < diffs.len() {
                copy_diff(&diffs[i])
            } else {
                None
            };
            abandon.push(
                AbandonedSibling {
                    commit_id: copy(change.siblings[i].commit_id.as_str()),
                    changed_paths_vs_keep: paths,
                },
            );
            assert(abandon@.drop_last() =~= before);
        }
        i = i + 1;
    }
    let kept = if keep < change.siblings.len() {
        copy(change.siblings[keep].commit_id.as_str())
    } else {
        copy("")
    };
    HealedChange { change_id: copy(change.change_id.as_str()), keep: kept, abandon }
}

/// The machine output says what the plan says.
pub open spec fn report_matches(
    report: HealReport,
    candidates: Seq<HealCandidate>,
    plan: PlanView,
    diffs: Seq<Vec<Option<Vec<String>>>>,
    applied: bool,
) -> bool {
    &&& report.applied == applied
    &&& report.filtered == plan.filtered
    &&& report.over_limit == plan.over_limit
    &&& report.healed@.len() == plan.planned.len()
    &&& forall|p: int|
        0 <= p < plan.planned.len() ==> healed_matches(
            #[trigger] report.healed@[p],
            candidates[plan.planned[p].0].change,
            plan.planned[p].1,
            diffs_of(diffs, p),
        )
    &&& report.skipped@.len() == plan.skipped.len()
    &&& forall|p: int|
        0 <= p < plan.skipped.len() ==> {
            &&& (#[trigger] report.skipped@[p]).change_id@
                == candidates[plan.skipped[p].0].change.change_id@
            &&& report.skipped@[p].reason@ == plan.skipped[p].1
        }
}

/// The machine output of a heal.
pub fn heal_report(
    candidates: &Vec<HealCandidate>,
    plan: &HealPlan,
    diffs: &Vec<Vec<Option<Vec<String>>>>,
    applied: bool,
) -> (res: HealReport)
    requires
        plan_fits(plan@, candidates@.len()),
    ensures
        report_matches(res, candidates@, plan@, diffs@, applied),
{
    let ghost view = plan@;
    let unknown: Vec<Option<Vec<String>>> = Vec::new();
    let mut healed: Vec<HealedChange> = Vec::new();
    let mut i: usize = 0;
    while i < plan.planned.len()
        invariant
            i <= plan.planned@.len(),
            view == plan@,
            plan_fits(view, candidates@.len()),
            unknown@ =~= Seq::empty(),
            healed@.len() == i,
            forall|p: int|
                0 <= p < i ==> healed_matches(
                    #[trigger] healed@[p],
                    candidates@[view.planned[p].0].change,
                    view.planned[p].1,
                    diffs_of(diffs@, p),
                ),
        decreases plan.planned@.len() - i,
    {
        let heal = plan.planned[i];
        proof {
            assert(view.planned[i as int] == (heal.candidate as int, heal.keep as int));
        }
        let change = &candidates[heal.candidate].change;
        let entry = if i < diffs.len() {
            healed_change(change, heal.keep, &diffs[i])
        } else {
            healed_change(change, heal.keep, &unknown)
        };
        healed.push(entry);
        i = i + 1;
    }
    let mut skipped: Vec<SkippedChange> = Vec::new();
    let mut j: usize = 0;
    while j < plan.skipped.len()
        invariant
            j <= plan.skipped@.len(),
            view == plan@,
            plan_fits(view, candidates@.len()),
            skipped@.len() == j,
            forall|p: int|
                0 <= p < j ==> {
                    &&& (#[trigger] skipped@[p]).change_id@
                        == candidates@[view.skipped[p].0].change.change_id@
                    &&& skipped@[p].reason@ == view.skipped[p].1
                },
        decreases plan.skipped@.len() - j,
    {
        let skip = &plan.skipped[j];
        proof {
            assert(view.skipped[j as int] == (skip.candidate as int, skip.reason@));
        }
        skipped.push(
            SkippedChange {
                change_id: copy(candidates[skip.candidate].change.change_id.as_str()),
                reason: copy(skip.reason.as_str()),
            },
        );
        j = j + 1;
    }
    HealReport {
        applied,
        healed,
        skipped,
        filtered: plan.filtered,
        over_limit: plan.over_limit,
    }
}

/// Validate the `--limit` flag: a limit of zero is an error.
pub fn validated_limit(limit: usize) -> (res: Result<usize>)
    ensures
        match res {
            Ok(value) => limit > 0 && value == limit,
            Err(e) => limit == 0 && e@ == error::about(
                ErrorKind::Engine,
                "--limit must be at least 1"@,
            ),
        },
{
    if limit == 0 {
        return Err(Error::Engine { message: copy("--limit must be at least 1") });
    }
    Ok(limit)
}

// ---------------------------------------------------------------------------
// What a heal abandons

/// The ids of some siblings.
pub open spec fn sibling_ids(siblings: Seq<DivergentSibling>) -> Seq<Seq<char>> {
    siblings.map_values(|s: DivergentSibling| s.commit_id@)
}

/// All siblings of a change are stale but the one that is kept: its id is taken
/// out of the list of ids, and nothing else is.
pub proof fn law_all_but_one_are_stale(siblings: Seq<DivergentSibling>, keep: int)
    ensures
        0 <= keep < siblings.len() ==> loser_ids(siblings, keep) == sibling_ids(siblings).remove(
            keep,
        ),
        !(0 <= keep < siblings.len()) ==> loser_ids(siblings, keep) == sibling_ids(siblings),
    decreases siblings.len(),
{
    if siblings.len() > 0 {
        let front = siblings.drop_last();
        law_all_but_one_are_stale(front, keep);
        assert(sibling_ids(siblings) =~= sibling_ids(front).push(siblings.last().commit_id@));
        if keep == siblings.len() - 1 {
            assert(sibling_ids(siblings).remove(keep) =~= sibling_ids(front));
        } else if 0 <= keep < siblings.len() {
            assert(sibling_ids(siblings).remove(keep) =~= sibling_ids(front).remove(keep).push(
                siblings.last().commit_id@,
            ));
        }
    } else {
        assert(loser_ids(siblings, keep) =~= sibling_ids(siblings));
    }
}

/// A batch abandons what its parts abandon, one after the other: healing more
/// changes leaves none of the others out.
pub proof fn law_batches_add_up(
    candidates: Seq<HealCandidate>,
    some: Seq<(int, int)>,
    more: Seq<(int, int)>,
)
    ensures
        abandoned_ids(candidates, some + more) == abandoned_ids(candidates, some) + abandoned_ids(
            candidates,
            more,
        ),
        forall|c: int, keep: int| #[trigger]
            abandoned_ids(candidates, seq![(c, keep)]) == loser_ids(
                candidates[c].change.siblings@,
                keep,
            ),
    decreases more.len(),
{
    if more.len() == 0 {
        assert(some + more =~= some);
        assert(abandoned_ids(candidates, some) + abandoned_ids(candidates, more) =~= abandoned_ids(
            candidates,
            some,
        ));
    } else {
        law_batches_add_up(candidates, some, more.drop_last());
        assert((some + more).drop_last() =~= some + more.drop_last());
        assert((some + more).last() == more.last());
        assert(abandoned_ids(candidates, some + more) =~= abandoned_ids(candidates, some)
            + abandoned_ids(candidates, more));
    }
    assert forall|c: int, keep: int| #[trigger]
        abandoned_ids(candidates, seq![(c, keep)]) == loser_ids(
            candidates[c].change.siblings@,
            keep,
        ) by {
        let one = seq![(c, keep)];
        assert(one.drop_last() =~= Seq::<(int, int)>::empty());
        assert(one.last() == (c, keep));
        reveal_with_fuel(abandoned_ids, 2);
        assert(abandoned_ids(candidates, one) =~= loser_ids(candidates[c].change.siblings@, keep));
    }
}

/// The id is that of a stale sibling of a planned change.
pub open spec fn is_stale_id(
    candidates: Seq<HealCandidate>,
    planned: Seq<(int, int)>,
    id: Seq<char>,
) -> bool {
    exists|p: int, i: int|
        0 <= p < planned.len() && 0 <= i
            < candidates[planned[p].0].change.siblings@.len() && i != planned[p].1 && id
            == #[trigger] candidates[(#[trigger] planned[p]).0].change.siblings@[i].commit_id@
}

/// How many siblings of a planned change are stale, added to a number.
pub open spec fn plus_stale(candidates: Seq<HealCandidate>) -> spec_fn(int, (int, int)) -> int {
    |sum: int, heal: (int, int)| sum + candidates[heal.0].change.siblings@.len() - 1
}

/// Every planned change keeps a sibling that it has.
pub open spec fn keeps_exist(candidates: Seq<HealCandidate>, planned: Seq<(int, int)>) -> bool {
    forall|p: int|
        0 <= p < planned.len() ==> 0 <= (#[trigger] planned[p]).1
            < candidates[planned[p].0].change.siblings@.len()
}

/// A heal leaves no planned change divergent: the ids that it abandons are
/// exactly those of the stale siblings of all planned changes, and there are as
/// many as the planned changes have siblings beside the ones that are kept.
pub proof fn law_every_stale_sibling_is_abandoned(
    candidates: Seq<HealCandidate>,
    planned: Seq<(int, int)>,
)
    ensures
        forall|id: Seq<char>| #[trigger]
            abandoned_ids(candidates, planned).contains(id) <==> is_stale_id(
                candidates,
                planned,
                id,
            ),
        keeps_exist(candidates, planned) ==> abandoned_ids(candidates, planned).len()
            == planned.fold_left(0int, plus_stale(candidates)),
    decreases planned.len(),
{
    let ids = abandoned_ids(candidates, planned);
    reveal(Seq::fold_left);
    if planned.len() > 0 {
        let front = planned.drop_last();
        let (c, keep) = planned.last();
        let siblings = candidates[c].change.siblings@;
        let all = sibling_ids(siblings);
        let before = abandoned_ids(candidates, front);
        let added = loser_ids(siblings, keep);
        law_every_stale_sibling_is_abandoned(candidates, front);
        law_all_but_one_are_stale(siblings, keep);
        let last = planned.len() - 1;
        assert forall|id: Seq<char>| #[trigger] ids.contains(id) <==> is_stale_id(
            candidates,
            planned,
            id,
        ) by {
            if ids.contains(id) {
                let k = choose|k: int| 0 <= k < ids.len() && ids[k] == id;
                if k < before.len() {
                    assert(before[k] == id);
                    assert(before.contains(id));
                    let (p, i) = choose|p: int, i: int|
                        0 <= p < front.len() && 0 <= i
                            < candidates[front[p].0].change.siblings@.len() && i != front[p].1
                            && id == #[trigger] candidates[(
                        #[trigger] front[p]).0].change.siblings@[i].commit_id@;
                    assert(planned[p] == front[p]);
                    assert(candidates[planned[p].0].change.siblings@[i].commit_id@ == id);
                } else {
                    let m = k - before.len();
                    assert(added[m] == id);
                    let i = if 0 <= keep < siblings.len() && m >= keep { m + 1 } else { m };
                    assert(all[i] == id);
                    assert(candidates[planned[last].0].change.siblings@[i].commit_id@ == id);
                }
            }
            if is_stale_id(candidates, planned, id) {
                let (p, i) = choose|p: int, i: int|
                    0 <= p < planned.len() && 0 <= i
                        < candidates[planned[p].0].change.siblings@.len() && i != planned[p].1
                        && id == #[trigger] candidates[(
                    #[trigger] planned[p]).0].change.siblings@[i].commit_id@;
                if p < last {
                    assert(front[p] == planned[p]);
                    assert(candidates[front[p].0].change.siblings@[i].commit_id@ == id);
                    assert(before.contains(id));
                    let k = choose|k: int| 0 <= k < before.len() && before[k] == id;
                    assert(ids[k] == id);
                } else {
                    assert(all[i] == id);
                    let m = if 0 <= keep < siblings.len() && i > keep { i - 1 } else { i };
                    assert(added[m] == id);
                    assert(ids[before.len() + m] == id);
                }
            }
        }
        if keeps_exist(candidates, planned) {
            assert forall|p: int| 0 <= p < front.len() implies 0 <= (#[trigger] front[p]).1
                < candidates[front[p].0].change.siblings@.len() by {
                assert(front[p] == planned[p]);
            }
            assert(planned[last] == planned.last());
        }
    }
}

// ---------------------------------------------------------------------------
// What a heal plans

/// A change is asked for by a prefix of its id, or by no prefix at all; where
/// only the user's own changes are healed, one sibling of someone else, or of
/// nobody known, is enough to leave the change alone.
pub proof fn law_filters_select(
    candidate: HealCandidate,
    options: HealOptions,
    me: Seq<char>,
    k: int,
    i: int,
)
    ensures
        options.changes@.len() == 0 && !options.mine ==> wanted(candidate, options, me),
        !options.mine && 0 <= k < options.changes@.len() && options.changes@[k]@.len()
            <= candidate.change.change_id@.len() && candidate.change.change_id@.take(
            options.changes@[k]@.len() as int,
        ) == options.changes@[k]@ ==> wanted(candidate, options, me),
        options.changes@.len() > 0 && (forall|j: int|
            0 <= j < options.changes@.len() ==> !text::starts_with(
                candidate.change.change_id@,
                (#[trigger] options.changes@[j])@,
            )) ==> !wanted(candidate, options, me),
        options.mine && 0 <= i < candidate.change.siblings@.len() && (
        candidate.change.siblings@[i].op matches Some(op) ==> op.username@ != me) ==> !wanted(
            candidate,
            options,
            me,
        ),
        options.mine && options.changes@.len() == 0 && (forall|j: int|
            0 <= j < candidate.change.siblings@.len() ==> ((
            #[trigger] candidate.change.siblings@[j]).op matches Some(op) && op.username@ == me))
            ==> wanted(candidate, options, me),
{
}

/// A sibling with content is kept wherever there is one and content is
/// preferred; and the sibling that is kept is one that the change has.
pub proof fn law_content_is_kept(candidate: HealCandidate, prefer_content: bool, i: int)
    requires
        candidate.change.siblings@.len() > 0,
        candidate.facts@.len() == candidate.change.siblings@.len(),
    ensures
        0 <= candidate.keep(prefer_content) < candidate.change.siblings@.len(),
        prefer_content && 0 <= i < candidate.facts@.len() && !candidate.facts@[i].empty
            ==> !candidate.facts@[candidate.keep(prefer_content)].empty && candidate.keep(
            prefer_content,
        ) <= i,
        !prefer_content ==> candidate.keep(prefer_content) == 0,
        (forall|j: int| 0 <= j < candidate.facts@.len() ==> (#[trigger] candidate.facts@[j]).empty)
            ==> candidate.keep(prefer_content) == 0,
{
    lemma_content_from(candidate, 0);
    if 0 <= i < candidate.facts@.len() && !candidate.facts@[i].empty {
        lemma_content_is_found(candidate, 0, i);
    }
}

proof fn lemma_content_is_found(candidate: HealCandidate, from: int, i: int)
    requires
        0 <= from <= i < candidate.change.siblings@.len(),
        !candidate.empty_at(i),
    ensures
        candidate.content_from(from) is Some,
        candidate.content_from(from)->0 <= i,
    decreases i - from,
{
    if candidate.empty_at(from) {
        lemma_content_is_found(candidate, from + 1, i);
    }
}

/// Something would be lost if the sibling at `i` were abandoned for the one at
/// `keep`: a workspace's working copy, what is stacked on it, a part of the
/// landing target for a stray, or content for nothing.
pub open spec fn is_precious(candidate: HealCandidate, keep: int, i: int) -> bool {
    &&& 0 <= i < candidate.change.siblings@.len()
    &&& i != keep
    &&& {
        ||| candidate.change.siblings@[i].wc_of@.len() > 0
        ||| candidate.change.siblings@[i].has_children
        ||| candidate.facts@[i].in_target && !candidate.facts@[keep].in_target
        ||| !candidate.facts@[i].empty && candidate.facts@[keep].empty
    }
}

/// A heal is blocked exactly where it would lose something, and the reason
/// names a sibling that would be lost.
pub proof fn law_heal_is_blocked_exactly(candidate: HealCandidate, keep: int)
    requires
        0 <= keep < candidate.change.siblings@.len(),
        candidate.facts@.len() == candidate.change.siblings@.len(),
    ensures
        candidate.blocked(keep) is Some <==> exists|i: int| is_precious(candidate, keep, i),
        candidate.blocked(keep) matches Some(reason) ==> exists|i: int|
            #![trigger candidate.change.siblings@[i]]
            is_precious(candidate, keep, i) && text::starts_with(
                reason,
                "stale sibling "@ + candidate.change.siblings@[i].commit_id@,
            ),
{
    lemma_tripped(candidate, HealGuard::Live, keep, 0);
    lemma_tripped(candidate, HealGuard::Stacked, keep, 0);
    lemma_tripped(candidate, HealGuard::Mainline, keep, 0);
    lemma_tripped(candidate, HealGuard::Shell, keep, 0);
    if candidate.blocked(keep) is None {
        assert forall|i: int| !is_precious(candidate, keep, i) by {
            if 0 <= i < candidate.change.siblings@.len() {
                lemma_not_tripped(candidate, HealGuard::Live, keep, 0, i);
                lemma_not_tripped(candidate, HealGuard::Stacked, keep, 0, i);
                lemma_not_tripped(candidate, HealGuard::Mainline, keep, 0, i);
                lemma_not_tripped(candidate, HealGuard::Shell, keep, 0, i);
            }
        }
    } else {
        let reason = candidate.blocked(keep)->0;
        let i = if let Some(i) = candidate.tripped_from(HealGuard::Live, keep, 0) {
            i
        } else if let Some(i) = candidate.tripped_from(HealGuard::Stacked, keep, 0) {
            i
        } else if let Some(i) = candidate.tripped_from(HealGuard::Mainline, keep, 0) {
            i
        } else {
            candidate.tripped_from(HealGuard::Shell, keep, 0)->0
        };
        assert(is_precious(candidate, keep, i));
        let head = "stale sibling "@ + candidate.change.siblings@[i].commit_id@;
        assert(reason.take(head.len() as int) =~= head);
        assert(text::starts_with(reason, head));
    }
}

proof fn lemma_tripped(c: HealCandidate, guard: HealGuard, keep: int, from: int)
    requires
        0 <= from,
    ensures
        c.tripped_from(guard, keep, from) matches Some(i) ==> from <= i
            < c.change.siblings@.len() && c.trips(guard, keep, i),
    decreases c.change.siblings@.len() - from,
{
    if from < c.change.siblings@.len() {
        lemma_tripped(c, guard, keep, from + 1);
    }
}

/// The change can be healed: it was asked for and nothing blocks it.
pub open spec fn is_healable(candidate: HealCandidate, options: HealOptions, me: Seq<char>) -> bool {
    wanted(candidate, options, me) && candidate.blocked(candidate.keep(options.prefer_content))
        is None
}

/// The positions of the changes that can be healed.
pub open spec fn healable_positions(
    candidates: Seq<HealCandidate>,
    options: HealOptions,
    me: Seq<char>,
) -> Seq<int> {
    Seq::new(candidates.len(), |i: int| i).filter(
        |i: int| is_healable(candidates[i], options, me),
    )
}

/// The positions of the changes that were not asked for.
pub open spec fn unwanted_positions(
    candidates: Seq<HealCandidate>,
    options: HealOptions,
    me: Seq<char>,
) -> Seq<int> {
    Seq::new(candidates.len(), |i: int| i).filter(|i: int| !wanted(candidates[i], options, me))
}

proof fn lemma_plan_of_front(
    candidates: Seq<HealCandidate>,
    options: HealOptions,
    me: Seq<char>,
    n: nat,
)
    requires
        n < candidates.len(),
    ensures
        plan_of(candidates, options, me, n) == plan_of(candidates.drop_last(), options, me, n),
    decreases n,
{
    if n > 0 {
        lemma_plan_of_front(candidates, options, me, (n - 1) as nat);
    }
}

/// The plan takes the changes that can be healed in their order, as many as the
/// limit allows, and counts the rest of them; every other change is either
/// skipped with its reason or counted as not asked for.
pub proof fn law_plan_takes_the_first_healable(
    candidates: Seq<HealCandidate>,
    options: HealOptions,
    me: Seq<char>,
)
    ensures
        ({
            let plan = plan_of(candidates, options, me, candidates.len());
            let healable = healable_positions(candidates, options, me);
            &&& plan.planned.len() == (if healable.len() <= options.limit {
                healable.len() as int
            } else {
                options.limit as int
            })
            &&& forall|p: int|
                0 <= p < plan.planned.len() ==> #[trigger] plan.planned[p] == (
                    healable[p],
                    candidates[healable[p]].keep(options.prefer_content),
                )
            &&& plan.planned.len() + plan.over_limit == healable.len()
            &&& plan.filtered == unwanted_positions(candidates, options, me).len()
            &&& forall|i: int, reason: Seq<char>| #[trigger]
                plan.skipped.contains((i, reason)) <==> 0 <= i < candidates.len() && wanted(
                    candidates[i],
                    options,
                    me,
                ) && candidates[i].blocked(candidates[i].keep(options.prefer_content)) == Some(
                    reason,
                )
        }),
    decreases candidates.len(),
{
    reveal(Seq::filter);
    let n = candidates.len();
    let plan = plan_of(candidates, options, me, n);
    let all = Seq::new(n, |i: int| i);
    let ok = |i: int| is_healable(candidates[i], options, me);
    let out = |i: int| !wanted(candidates[i], options, me);
    if n == 0 {
        assert(all =~= Seq::<int>::empty());
    } else {
        let front = candidates.drop_last();
        let last = n - 1;
        let c = candidates[last];
        let before = plan_of(front, options, me, front.len());
        law_plan_takes_the_first_healable(front, options, me);
        lemma_plan_of_front(candidates, options, me, last as nat);
        assert(plan == plan_step(before, last, c, options, me));
        let some = Seq::new(front.len(), |i: int| i);
        assert(all.drop_last() =~= some);
        assert(all.last() == last);
        lemma_filter_agrees(some, ok, |i: int| is_healable(front[i], options, me));
        lemma_filter_agrees(some, out, |i: int| !wanted(front[i], options, me));
        let healable = healable_positions(candidates, options, me);
        let h0 = healable_positions(front, options, me);
        assert(all.filter(ok) == if ok(last) { h0.push(last) } else { h0 });
        assert(healable == if ok(last) { h0.push(last) } else { h0 });
        assert forall|k: int| 0 <= k < h0.len() implies 0 <= #[trigger] h0[k] < last by {
            some.lemma_filter_pred(|i: int| is_healable(front[i], options, me), k);
            some.lemma_filter_contains_rev(|i: int| is_healable(front[i], options, me), h0[k]);
        }
        let reason0 = c.blocked(c.keep(options.prefer_content));
        assert forall|i: int, reason: Seq<char>| #[trigger]
            plan.skipped.contains((i, reason)) <==> 0 <= i < candidates.len() && wanted(
                candidates[i],
                options,
                me,
            ) && candidates[i].blocked(candidates[i].keep(options.prefer_content)) == Some(
                reason,
            ) by {
            if plan.skipped.contains((i, reason)) {
                let k = choose|k: int| 0 <= k < plan.skipped.len() && plan.skipped[k] == (i, reason);
                if k < before.skipped.len() {
                    assert(before.skipped[k] == (i, reason));
                    assert(before.skipped.contains((i, reason)));
                }
            }
            if 0 <= i < last && wanted(candidates[i], options, me) && candidates[i].blocked(
                candidates[i].keep(options.prefer_content),
            ) == Some(reason) {
                assert(before.skipped.contains((i, reason)));
                let k = choose|k: int|
                    0 <= k < before.skipped.len() && before.skipped[k] == (i, reason);
                assert(plan.skipped[k] == (i, reason));
            }
            if i == last && wanted(c, options, me) && reason0 == Some(reason) {
                assert(plan.skipped[before.skipped.len() as int] == (i, reason));
            }
        }
    }
}

proof fn lemma_filter_agrees(s: Seq<int>, a: spec_fn(int) -> bool, b: spec_fn(int) -> bool)
    requires
        forall|k: int| 0 <= k < s.len() ==> (a(#[trigger] s[k]) <==> b(s[k])),
    ensures
        s.filter(a) == s.filter(b),
    decreases s.len(),
{
    reveal(Seq::filter);
    if s.len() > 0 {
        assert forall|k: int| 0 <= k < s.drop_last().len() implies (a(
            #[trigger] s.drop_last()[k],
        ) <==> b(s.drop_last()[k])) by {
            assert(s.drop_last()[k] == s[k]);
        }
        lemma_filter_agrees(s.drop_last(), a, b);
        assert(s.last() == s[s.len() - 1]);
    }
}

/// The machine output lists the stale siblings of a change in their order, each
/// with what is known of its own content, and the kept one apart.
pub proof fn law_report_lists_the_stale(
    healed: HealedChange,
    change: DivergentChange,
    keep: int,
    diffs: Seq<Option<Vec<String>>>,
    i: int,
)
    requires
        healed_matches(healed, change, keep, diffs),
        0 <= keep < change.siblings@.len(),
        0 <= i < change.siblings@.len(),
    ensures
        healed.abandon@.len() == change.siblings@.len() - 1,
        i == keep ==> healed.keep@ == change.siblings@[i].commit_id@,
        i != keep ==> {
            let entry = healed.abandon@[if i < keep { i } else { i - 1 }];
            &&& entry.commit_id@ == change.siblings@[i].commit_id@
            &&& i < diffs.len() ==> diff_view(entry.changed_paths_vs_keep) == diff_view(diffs[i])
            &&& i >= diffs.len() ==> entry.changed_paths_vs_keep is None
        },
{
    lemma_abandon_matches(
        healed.abandon@,
        change.siblings@,
        keep,
        diffs,
        change.siblings@.len(),
        i,
    );
}

proof fn lemma_abandon_matches(
    abandon: Seq<AbandonedSibling>,
    siblings: Seq<DivergentSibling>,
    keep: int,
    diffs: Seq<Option<Vec<String>>>,
    n: nat,
    i: int,
)
    requires
        abandon_matches(abandon, siblings, keep, diffs, n),
        0 <= keep,
    ensures
        abandon.len() == (if keep < n {
            n - 1
        } else {
            n as int
        }),
        0 <= i < n && i != keep ==> {
            let entry = abandon[if i < keep { i } else { i - 1 }];
            &&& entry.commit_id@ == siblings[i].commit_id@
            &&& diff_view(entry.changed_paths_vs_keep) == diff_at(diffs, i)
        },
    decreases n,
{
    if n > 0 {
        if n - 1 == keep {
            lemma_abandon_matches(abandon, siblings, keep, diffs, (n - 1) as nat, i);
        } else {
            lemma_abandon_matches(abandon.drop_last(), siblings, keep, diffs, (n - 1) as nat, i);
        }
    }
}

/// The report of a plan names every planned change and says of each of its
/// siblings whether it is kept or abandoned; and it names every change that is
/// skipped, with the reason.
pub proof fn law_report_names_every_sibling(
    candidates: Seq<HealCandidate>,
    plan: PlanView,
    diffs: Seq<Vec<Option<Vec<String>>>>,
    applying: bool,
    p: int,
    i: int,
)
    ensures
        ({
            let lines = plan_lines(candidates, plan, diffs, applying);
            let change = candidates[plan.planned[p].0].change;
            let sibling = change.siblings@[i];
            &&& 0 <= p < plan.planned.len() ==> lines.contains(
                (if applying {
                    "healing change "@
                } else {
                    "would heal change "@
                }) + change.change_id@,
            )
            &&& 0 <= p < plan.planned.len() && 0 <= i < change.siblings@.len() ==> lines.contains(
                (if i == plan.planned[p].1 {
                    "  keep    "@
                } else {
                    "  abandon "@
                }) + sibling_text(sibling),
            )
            &&& 0 <= p < plan.skipped.len() ==> lines.contains(
                "skip change "@ + candidates[plan.skipped[p].0].change.change_id@,
            ) && lines.contains("  reason: "@ + plan.skipped[p].1)
        }),
{
    let lines = plan_lines(candidates, plan, diffs, applying);
    let healed = planned_lines(candidates, plan.planned, diffs, applying, plan.planned.len());
    let skipped = skipped_lines(candidates, plan.skipped, plan.skipped.len());
    assert forall|k: int| 0 <= k < healed.len() implies lines.contains(#[trigger] healed[k]) by {
        assert(lines[k] == healed[k]);
    }
    assert forall|k: int| 0 <= k < skipped.len() implies lines.contains(#[trigger] skipped[k]) by {
        assert(lines[healed.len() + k] == skipped[k]);
    }
    if 0 <= p < plan.planned.len() {
        lemma_planned_lines(candidates, plan.planned, diffs, applying, plan.planned.len(), p, i);
    }
    if 0 <= p < plan.skipped.len() {
        lemma_skipped_lines(candidates, plan.skipped, plan.skipped.len(), p);
    }
}

proof fn lemma_planned_lines(
    candidates: Seq<HealCandidate>,
    planned: Seq<(int, int)>,
    diffs: Seq<Vec<Option<Vec<String>>>>,
    applying: bool,
    n: nat,
    p: int,
    i: int,
)
    requires
        0 <= p < n,
    ensures
        ({
            let lines = planned_lines(candidates, planned, diffs, applying, n);
            let change = candidates[planned[p].0].change;
            &&& lines.contains(
                (if applying {
                    "healing change "@
                } else {
                    "would heal change "@
                }) + change.change_id@,
            )
            &&& 0 <= i < change.siblings@.len() ==> lines.contains(
                (if i == planned[p].1 {
                    "  keep    "@
                } else {
                    "  abandon "@
                }) + sibling_text(change.siblings@[i]),
            )
        }),
    decreases n,
{
    let lines = planned_lines(candidates, planned, diffs, applying, n);
    let before = planned_lines(candidates, planned, diffs, applying, (n - 1) as nat);
    let change = candidates[planned[n - 1].0].change;
    let rows = sibling_lines(
        change.siblings@,
        planned[n - 1].1,
        diffs_of(diffs, n - 1),
        change.siblings@.len(),
    );
    if p < n - 1 {
        lemma_planned_lines(candidates, planned, diffs, applying, (n - 1) as nat, p, i);
        assert forall|k: int| 0 <= k < before.len() implies lines.contains(#[trigger] before[k]) by {
            assert(lines[k] == before[k]);
        }
    } else {
        reveal_strlit("healing");
        reveal_strlit("would heal");
        reveal_strlit(" change ");
        reveal_strlit("healing change ");
        reveal_strlit("would heal change ");
        let head = (if applying {
            "healing change "@
        } else {
            "would heal change "@
        }) + change.change_id@;
        assert("healing"@ + " change "@ =~= "healing change "@);
        assert("would heal"@ + " change "@ =~= "would heal change "@);
        assert(lines[before.len() as int] == head);
        if 0 <= i < change.siblings@.len() {
            lemma_sibling_lines(
                change.siblings@,
                planned[n - 1].1,
                diffs_of(diffs, n - 1),
                change.siblings@.len(),
                i,
            );
            assert forall|k: int| 0 <= k < rows.len() implies lines.contains(#[trigger] rows[k]) by {
                assert(lines[before.len() + 1 + k] == rows[k]);
            }
        }
    }
}

proof fn lemma_sibling_lines(
    siblings: Seq<DivergentSibling>,
    keep: int,
    diffs: Seq<Option<Vec<String>>>,
    n: nat,
    i: int,
)
    requires
        0 <= i < n,
    ensures
        sibling_lines(siblings, keep, diffs, n).contains(
            (if i == keep {
                "  keep    "@
            } else {
                "  abandon "@
            }) + sibling_text(siblings[i]),
        ),
    decreases n,
{
    let lines = sibling_lines(siblings, keep, diffs, n);
    let before = sibling_lines(siblings, keep, diffs, (n - 1) as nat);
    if i < n - 1 {
        lemma_sibling_lines(siblings, keep, diffs, (n - 1) as nat, i);
        assert forall|k: int| 0 <= k < before.len() implies lines.contains(#[trigger] before[k]) by {
            assert(lines[k] == before[k]);
        }
    } else {
        assert(lines[before.len() as int] == (if i == keep {
            "  keep    "@
        } else {
            "  abandon "@
        }) + sibling_text(siblings[i]));
    }
}

proof fn lemma_skipped_lines(
    candidates: Seq<HealCandidate>,
    skipped: Seq<(int, Seq<char>)>,
    n: nat,
    p: int,
)
    requires
        0 <= p < n,
    ensures
        skipped_lines(candidates, skipped, n).len() == 2 * n,
        skipped_lines(candidates, skipped, n)[2 * p] == "skip change "@
            + candidates[skipped[p].0].change.change_id@,
        skipped_lines(candidates, skipped, n)[2 * p + 1] == "  reason: "@ + skipped[p].1,
    decreases n,
{
    reveal_with_fuel(skipped_lines, 2);
    if p < n - 1 {
        lemma_skipped_lines(candidates, skipped, (n - 1) as nat, p);
    } else if n > 1 {
        lemma_skipped_lines(candidates, skipped, (n - 1) as nat, p - 1);
    }
}

} // verus!
