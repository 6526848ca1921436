//! Conflict census and structural auto-resolution.
//!
//! Conflicts propagate: one conflicted merge rebased through descendants
//! paints the same conflict across every one of them. The census ranks
//! conflict *roots* by blast radius; a union resolution fixes a root's
//! append-only file (both sides kept, in order) and lets jj's descendant
//! rebase dissolve the echo, looping until a fixpoint.

use vstd::prelude::*;

use crate::engine::{self, ConflictRoot, RootView};
use crate::error::{self, Error, ErrorKind, Result};
use crate::jj::{self, JjRequest};
use crate::text::{
    self, cat2, cat3, cat4, cat5, cat7, copy, copy_all, joined, number, replaced, same, size_number,
};
use crate::types::{RepoConfig, ResolvePolicy, WorkspaceName};

verus! {

// ---------------------------------------------------------------------------
// Census

/// A conflict root with what tells which one to fix first.
#[derive(Debug, PartialEq, Eq)]
pub struct CensusRoot {
    pub root: ConflictRoot,
    /// Change id in jj's display form.
    pub change_id: String,
    /// Number of sides of the conflict at each conflicted path.
    pub sides: Vec<usize>,
    /// Whether the landing target carries the root; none where there is no
    /// target.
    pub in_target: Option<bool>,
    /// Whether the census was asked about the root.
    pub in_scope: bool,
}

/// The commit, where a revset holds it.
pub open spec fn scope_revset(commit: Seq<char>, revset: Seq<char>) -> Seq<char> {
    "("@ + commit + ") & ("@ + revset + ")"@
}

/// Ask whether a revset holds a commit: it does where the answer lists any.
pub fn scope_request(commit: &str, revset: &str) -> (res: JjRequest)
    ensures
        res@ == jj::revisions_args(scope_revset(commit@, revset@)),
{
    JjRequest::revisions(cat5("(", commit, ") & (", revset, ")").as_str())
}

/// Being a root that the census was asked about.
pub open spec fn asked_about() -> spec_fn(CensusRoot) -> bool {
    |r: CensusRoot| r.in_scope
}

/// The roots that the census was asked about, in order.
pub fn scoped_census(roots: Vec<CensusRoot>) -> (res: Vec<CensusRoot>)
    ensures
        res@ == roots@.filter(asked_about()),
{
    let ghost all = roots@;
    let ghost keep = asked_about();
    let ghost mut done: int = 0;
    let mut rest = roots;
    let mut out: Vec<CensusRoot> = Vec::new();
    proof {
        reveal(Seq::filter);
        assert(all.skip(0) =~= all);
        assert(all.take(0).filter(keep) =~= Seq::<CensusRoot>::empty());
    }
    while rest.len() > 0
        invariant
            0 <= done <= all.len(),
            keep == asked_about(),
            rest@ == all.skip(done),
            out@ == all.take(done).filter(keep),
        decreases rest@.len(),
    {
        let root = rest.remove(0);
        proof {
            reveal(Seq::filter);
            assert(all.take(done + 1).drop_last() =~= all.take(done));
            assert(all.take(done + 1).last() == root);
            assert(rest@ =~= all.skip(done + 1));
            done = done + 1;
        }
        if root.in_scope {
            out.push(root);
        }
    }
    assert(all.take(done) =~= all);
    out
}

/// The number of commits that some roots explain.
pub open spec fn explained(roots: Seq<CensusRoot>) -> nat
    decreases roots.len(),
{
    if roots.len() == 0 {
        0
    } else {
        explained(roots.drop_last()) + roots.last().root.conflicted_descendants as nat
    }
}

/// Some numbers as text.
pub open spec fn decimals(numbers: Seq<usize>) -> Seq<Seq<char>> {
    numbers.map_values(|n: usize| text::decimal(n as nat))
}

/// What a root is to the landing target: what it carries cannot be published,
/// and what it does not carry is out of the way.
pub open spec fn triage_mark(in_target: Option<bool>) -> Seq<char> {
    match in_target {
        Some(true) => "  [BLOCKS TARGET]"@,
        Some(false) => "  [stranded]"@,
        None => Seq::empty(),
    }
}

/// The line on one root.
pub open spec fn census_row(entry: CensusRoot) -> Seq<char> {
    "  "@ + entry.root.commit_id@ + "  blast "@ + text::decimal(
        entry.root.conflicted_descendants as nat,
    ) + "  files: "@ + (if entry.root.paths@.len() == 0 {
        "(none in tree?)"@
    } else {
        text::join(text::views(entry.root.paths@), ", "@)
    }) + (if entry.sides@.len() == 0 {
        Seq::empty()
    } else {
        "  sides: "@ + text::join(decimals(entry.sides@), ", "@)
    }) + "  change "@ + entry.change_id@ + triage_mark(entry.in_target)
}

/// The lines on some roots.
pub open spec fn census_rows(roots: Seq<CensusRoot>) -> Seq<Seq<char>> {
    roots.map_values(|r: CensusRoot| census_row(r))
}

/// The report on all roots.
pub open spec fn census_lines(roots: Seq<CensusRoot>) -> Seq<Seq<char>> {
    if roots.len() == 0 {
        seq!["no conflicted commits"@]
    } else {
        seq![
            text::decimal(roots.len()) + " conflict root(s) explain ~"@ + text::decimal(
                explained(roots),
            ) + " conflicted commit(s)"@,
        ] + census_rows(roots) + seq![
            ""@,
            "hint: navi resolve --union <file> heals append-only file conflicts at the roots"@,
        ]
    }
}

proof fn lemma_explained_bound(roots: Seq<CensusRoot>)
    ensures
        explained(roots) <= roots.len() * usize::MAX,
    decreases roots.len(),
{
    if roots.len() > 0 {
        lemma_explained_bound(roots.drop_last());
        assert(roots.len() * usize::MAX == (roots.len() - 1) * usize::MAX + usize::MAX)
            by (nonlinear_arith)
            requires
                roots.len() > 0,
        ;
    }
}

fn number_texts(numbers: &Vec<usize>) -> (res: Vec<String>)
    ensures
        text::views(res@) == decimals(numbers@),
{
    broadcast use text::lemma_views_push;

    let ghost all = decimals(numbers@);
    let mut out: Vec<String> = Vec::new();
    let mut i: usize = 0;
    proof {
        text::lemma_views_empty(out@);
        assert(all.take(0) =~= Seq::<Seq<char>>::empty());
    }
    while i < numbers.len()
        invariant
            i <= numbers@.len(),
            all == decimals(numbers@),
            text::views(out@) == all.take(i as int),
        decreases numbers@.len() - i,
    {
        out.push(size_number(numbers[i]));
        i = i + 1;
        assert(all.take(i as int) =~= all.take(i - 1).push(all[i - 1]));
    }
    assert(all.take(i as int) =~= all);
    out
}

fn render_census_row(entry: &CensusRoot) -> (res: String)
    ensures
        res@ == census_row(*entry),
{
    let mut out = cat5(
        "  ",
        entry.root.commit_id.as_str(),
        "  blast ",
        size_number(entry.root.conflicted_descendants).as_str(),
        "  files: ",
    );
    if entry.root.paths.len() == 0 {
        out.append("(none in tree?)");
    } else {
        out.append(joined(&entry.root.paths, ", ").as_str());
    }
    if entry.sides.len() > 0 {
        let sides = number_texts(&entry.sides);
        out.append(cat2("  sides: ", joined(&sides, ", ").as_str()).as_str());
    }
    out.append("  change ");
    out.append(entry.change_id.as_str());
    match entry.in_target {
        Some(true) => out.append("  [BLOCKS TARGET]"),
        Some(false) => out.append("  [stranded]"),
        None => {},
    }
    assert(out@ =~= census_row(*entry));
    out
}

/// Render the census of conflict roots, one text per line.
pub fn render_census(roots: &Vec<CensusRoot>) -> (res: Vec<String>)
    ensures
        text::views(res@) == census_lines(roots@),
{
    broadcast use text::lemma_views_push;

    if roots.len() == 0 {
        let out: Vec<String> = vec![copy("no conflicted commits")];
        assert(text::views(out@) =~= census_lines(roots@));
        return out;
    }
    let mut total: u128 = 0;
    let mut rows: Vec<String> = Vec::new();
    let mut i: usize = 0;
    let ghost all = census_rows(roots@);
    proof {
        text::lemma_views_empty(rows@);
        assert(roots@.take(0) =~= Seq::<CensusRoot>::empty());
        assert(all.take(0) =~= Seq::<Seq<char>>::empty());
    }
    while i < roots.len()
        invariant
            i <= roots@.len(),
            roots@.len() <= usize::MAX,
            all == census_rows(roots@),
            total == explained(roots@.take(i as int)),
            text::views(rows@) == all.take(i as int),
        decreases roots@.len() - i,
    {
        proof {
            let next = roots@.take(i + 1);
            assert(next.drop_last() =~= roots@.take(i as int));
            lemma_explained_bound(next);
            assert(next.len() * usize::MAX <= u128::MAX) by (nonlinear_arith)
                requires
                    next.len() <= usize::MAX,
                    usize::MAX <= 0xffff_ffff_ffff_ffff,
            ;
        }
        total = total + roots[i].root.conflicted_descendants as u128;
        rows.push(render_census_row(&roots[i]));
        i = i + 1;
        assert(all.take(i as int) =~= all.take(i - 1).push(all[i - 1]));
    }
    proof {
        assert(roots@.take(i as int) =~= roots@);
        assert(all.take(i as int) =~= all);
    }
    let mut out: Vec<String> = vec![
        cat4(
            size_number(roots.len()).as_str(),
            " conflict root(s) explain ~",
            number(total).as_str(),
            " conflicted commit(s)",
        ),
    ];
    let ghost head = text::views(out@);
    text::push_all(&mut out, &rows);
    out.push(copy(""));
    out.push(
        copy("hint: navi resolve --union <file> heals append-only file conflicts at the roots"),
    );
    assert(text::views(out@) =~= census_lines(roots@));
    out
}

// ---------------------------------------------------------------------------
// Policies

/// What is said where a sweep has nothing to go by.
pub const NO_POLICIES: &'static str = "no [resolve] policies configured\nhint: add e.g. \"CHANGELOG.md\" = \"union\" to the [resolve] table in navi config, or pass --union <file>";

/// The policies of a sweep; an error where none is configured.
pub fn sweep_policies(config: &RepoConfig) -> (res: Result<&Vec<ResolvePolicy>>)
    ensures
        match res {
            Ok(policies) => config.resolve@.len() > 0 && policies@ == config.resolve@,
            Err(e) => config.resolve@.len() == 0 && e@ == error::about(
                ErrorKind::Engine,
                NO_POLICIES@,
            ),
        },
{
    if config.resolve.len() == 0 {
        return Err(Error::Engine { message: copy(NO_POLICIES) });
    }
    Ok(&config.resolve)
}

/// The line that announces a policy.
pub fn render_policy(policy: &ResolvePolicy) -> (res: String)
    ensures
        res@ == "policy: '"@ + policy.path@ + "' -> "@ + policy.strategy.label_text(),
{
    cat4("policy: '", policy.path.as_str(), "' -> ", policy.strategy.as_str())
}

// ---------------------------------------------------------------------------
// A union resolution, pass by pass

/// Passes after which a resolution stops.
pub const MAX_PASSES: usize = 10;

/// A root that was resolved, or would be.
#[derive(Debug, PartialEq, Eq)]
pub struct ResolvedRoot {
    pub commit_id: String,
    pub conflicted_descendants: usize,
    /// 0 in plan mode (nothing ran); otherwise the pass that resolved it.
    pub pass: usize,
}

/// A resolved root as mathematical values.
pub struct ResolvedView {
    pub commit_id: Seq<char>,
    pub conflicted_descendants: usize,
    pub pass: int,
}

impl View for ResolvedRoot {
    type V = ResolvedView;

    open spec fn view(&self) -> ResolvedView {
        ResolvedView {
            commit_id: self.commit_id@,
            conflicted_descendants: self.conflicted_descendants,
            pass: self.pass as int,
        }
    }
}

/// The views of some resolved roots.
pub open spec fn resolved_views(roots: Seq<ResolvedRoot>) -> Seq<ResolvedView> {
    roots.map_values(|r: ResolvedRoot| r@)
}

/// A union resolution of one file under way.
#[derive(Debug, PartialEq, Eq)]
pub struct UnionRun {
    /// The file, relative to the repo.
    pub file: String,
    /// Resolve instead of planning.
    pub apply: bool,
    /// Passes begun.
    pub pass: usize,
    /// The roots that this pass has still to try, in order.
    pub targets: Vec<ConflictRoot>,
    /// The roots that were resolved.
    pub resolved: Vec<ResolvedRoot>,
    /// The ids of the roots that are not union-safe.
    pub skipped: Vec<String>,
}

/// What a union resolution needs next.
#[derive(Clone, Copy, Debug, PartialEq, Eq, Structural)]
pub enum UnionStep {
    /// Snapshot the working copy of every live workspace, so that nothing that
    /// is only on disk can be stranded by the rebase of its chain.
    SnapshotLive,
    /// Read the conflict roots anew.
    Census,
    /// Merge the file at the first target, and resolve it where that works.
    Merge,
    /// Report what would be done.
    Planned,
    /// Stop: the passes are used up.
    OutOfPasses,
    /// Stop: nothing is left to do.
    Done,
    /// Bring every live workspace's files up to date with its rebased chain.
    RecoverLive,
    /// Report what was done.
    Report,
}

/// A union resolution as mathematical values.
#[verifier::ext_equal]
pub struct RunView {
    pub file: Seq<char>,
    pub apply: bool,
    pub pass: int,
    pub targets: Seq<RootView>,
    pub resolved: Seq<ResolvedView>,
    pub skipped: Seq<Seq<char>>,
}

impl View for UnionRun {
    type V = RunView;

    open spec fn view(&self) -> RunView {
        RunView {
            file: self.file@,
            apply: self.apply,
            pass: self.pass as int,
            targets: engine::root_views(self.targets@),
            resolved: resolved_views(self.resolved@),
            skipped: text::views(self.skipped@),
        }
    }
}

/// Being a root that carries the file and was not skipped.
pub open spec fn is_target(file: Seq<char>, skipped: Seq<Seq<char>>) -> spec_fn(RootView) -> bool {
    |r: RootView| r.paths.contains(file) && !skipped.contains(r.commit_id)
}

/// The step that a census leads to.
pub open spec fn census_step(run: RunView, roots: Seq<RootView>) -> (RunView, UnionStep) {
    let targets = roots.filter(is_target(run.file, run.skipped));
    let next = RunView { pass: run.pass + 1, targets, ..run };
    if targets.len() == 0 {
        (next, UnionStep::Done)
    } else if !run.apply {
        (next, UnionStep::Planned)
    } else if run.pass + 1 > MAX_PASSES {
        (next, UnionStep::OutOfPasses)
    } else {
        (next, UnionStep::Merge)
    }
}

/// The step after the first target was resolved: history changed, so the roots
/// are read anew before more of them are touched.
pub open spec fn resolved_step(run: RunView) -> (RunView, UnionStep) {
    let root = run.targets[0];
    (
        RunView {
            targets: Seq::empty(),
            resolved: run.resolved.push(
                ResolvedView {
                    commit_id: root.commit_id,
                    conflicted_descendants: root.conflicted_descendants,
                    pass: run.pass,
                },
            ),
            ..run
        },
        UnionStep::Census,
    )
}

/// The step after the first target turned out not to be union-safe: the next
/// one is tried; where there is none, this pass made no progress.
pub open spec fn skipped_step(run: RunView) -> (RunView, UnionStep) {
    let next = RunView {
        targets: run.targets.skip(1),
        skipped: run.skipped.push(run.targets[0].commit_id),
        ..run
    };
    (
        next,
        if next.targets.len() == 0 {
            UnionStep::Done
        } else {
            UnionStep::Merge
        },
    )
}

/// The first step of a resolution: history that live workspaces sit on may be
/// rewritten, so they are snapshotted before it is even looked at.
pub open spec fn opening_step(apply: bool) -> UnionStep {
    if apply {
        UnionStep::SnapshotLive
    } else {
        UnionStep::Census
    }
}

/// With the live workspaces snapshotted, the roots are read.
pub open spec fn snapshotted_step() -> UnionStep {
    UnionStep::Census
}

/// With the live workspaces recovered, what was done is reported.
pub open spec fn recovered_step() -> UnionStep {
    UnionStep::Report
}

/// The step after a resolution has stopped: what was snapshotted is recovered.
pub open spec fn closing_step(apply: bool) -> UnionStep {
    if apply {
        UnionStep::RecoverLive
    } else {
        UnionStep::Report
    }
}

/// The resolution of a file before its first census.
pub open spec fn fresh_run(file: Seq<char>, apply: bool) -> RunView {
    RunView {
        file,
        apply,
        pass: 0,
        targets: Seq::empty(),
        resolved: Seq::empty(),
        skipped: Seq::empty(),
    }
}

fn has_path(paths: &Vec<String>, file: &str) -> (res: bool)
    ensures
        res == text::views(paths@).contains(file@),
{
    let mut i: usize = 0;
    assert(text::views(paths@).len() == paths@.len());
    while i < paths.len()
        invariant
            i <= paths@.len(),
            text::views(paths@).len() == paths@.len(),
            forall|k: int| 0 <= k < i ==> text::views(paths@)[k] != file@,
        decreases paths@.len() - i,
    {
        if same(paths[i].as_str(), file) {
            assert(text::views(paths@)[i as int] == file@);
            return true;
        }
        i = i + 1;
    }
    false
}

fn copy_root(root: &ConflictRoot) -> (res: ConflictRoot)
    ensures
        res@ == root@,
{
    ConflictRoot {
        commit_id: copy(root.commit_id.as_str()),
        conflicted_descendants: root.conflicted_descendants,
        paths: copy_all(&root.paths),
    }
}

impl UnionRun {
    /// Begin the resolution of a file.
    pub fn start(file: &str, apply: bool) -> (res: UnionRun)
        ensures
            res@ == fresh_run(file@, apply),
    {
        let res = UnionRun {
            file: copy(file),
            apply,
            pass: 0,
            targets: Vec::new(),
            resolved: Vec::new(),
            skipped: Vec::new(),
        };
        assert(res@ =~= fresh_run(file@, apply));
        res
    }

    /// The first step.
    pub fn opening(&self) -> (res: UnionStep)
        ensures
            res == opening_step(self@.apply),
    {
        if self.apply {
            UnionStep::SnapshotLive
        } else {
            UnionStep::Census
        }
    }

    /// The step after the live workspaces were snapshotted.
    pub fn snapshotted(&self) -> (res: UnionStep)
        ensures
            res == snapshotted_step(),
    {
        UnionStep::Census
    }

    /// The step after the live workspaces were recovered.
    pub fn recovered(&self) -> (res: UnionStep)
        ensures
            res == recovered_step(),
    {
        UnionStep::Report
    }

    /// The step after the last pass.
    pub fn stopped(&self) -> (res: UnionStep)
        ensures
            res == closing_step(self@.apply),
    {
        if self.apply {
            UnionStep::RecoverLive
        } else {
            UnionStep::Report
        }
    }

    /// Take in the conflict roots and decide what to do about them.
    pub fn census(&mut self, roots: &Vec<ConflictRoot>) -> (res: UnionStep)
        requires
            old(self)@.pass < usize::MAX,
        ensures
            (final(self)@, res) == census_step(old(self)@, engine::root_views(roots@)),
    {
        reveal(Seq::filter);
        let ghost start = self@;
        let ghost keep = is_target(start.file, start.skipped);
        let ghost all = engine::root_views(roots@);
        let mut targets: Vec<ConflictRoot> = Vec::new();
        let mut i: usize = 0;
        proof {
            assert(all.take(0).filter(keep) =~= Seq::<RootView>::empty());
            assert(engine::root_views(targets@) =~= Seq::<RootView>::empty());
        }
        while i < roots.len()
            invariant
                i <= roots@.len(),
                self@ == start,
                keep == is_target(start.file, start.skipped),
                all == engine::root_views(roots@),
                all.len() == roots@.len(),
                engine::root_views(targets@) == all.take(i as int).filter(keep),
            decreases roots@.len() - i,
        {
            let root = &roots[i];
            let ghost before = targets@;
            proof {
                reveal(Seq::filter);
                assert(all.take(i + 1).drop_last() =~= all.take(i as int));
                assert(all.take(i + 1).last() == root@);
            }
            if has_path(&root.paths, self.file.as_str()) && !has_path(
                &self.skipped,
                root.commit_id.as_str(),
            ) {
                targets.push(copy_root(root));
                assert(engine::root_views(targets@) =~= engine::root_views(before).push(root@));
            }
            i = i + 1;
        }
        assert(all.take(i as int) =~= all);
        self.pass = self.pass + 1;
        self.targets = targets;
        assert(self@ =~= census_step(start, all).0);
        if self.targets.len() == 0 {
            UnionStep::Done
        } else if !self.apply {
            UnionStep::Planned
        } else if self.pass > MAX_PASSES {
            UnionStep::OutOfPasses
        } else {
            UnionStep::Merge
        }
    }

    /// Note that the first target was resolved.
    pub fn root_resolved(&mut self) -> (res: UnionStep)
        requires
            old(self)@.targets.len() > 0,
        ensures
            (final(self)@, res) == resolved_step(old(self)@),
    {
        let ghost start = self@;
        assert(start.targets.len() == self.targets@.len());
        assert(start.targets[0] == self.targets@[0]@);
        let ghost before = self.resolved@;
        let entry = ResolvedRoot {
            commit_id: copy(self.targets[0].commit_id.as_str()),
            conflicted_descendants: self.targets[0].conflicted_descendants,
            pass: self.pass,
        };
        let ghost view = entry@;
        self.resolved.push(entry);
        self.targets = Vec::new();
        proof {
            assert(resolved_views(self.resolved@) =~= resolved_views(before).push(view));
            assert(self@ =~= resolved_step(start).0);
        }
        UnionStep::Census
    }

    /// Note that the first target is not union-safe.
    pub fn root_skipped(&mut self) -> (res: UnionStep)
        requires
            old(self)@.targets.len() > 0,
        ensures
            (final(self)@, res) == skipped_step(old(self)@),
    {
        broadcast use text::lemma_views_push;

        let ghost start = self@;
        assert(start.targets.len() == self.targets@.len());
        assert(start.targets[0] == self.targets@[0]@);
        let ghost before = self.targets@;
        let root = self.targets.remove(0);
        self.skipped.push(root.commit_id);
        proof {
            assert(engine::root_views(self.targets@) =~= engine::root_views(before).skip(1));
            assert(self@ =~= skipped_step(start).0);
        }
        if self.targets.len() == 0 {
            UnionStep::Done
        } else {
            UnionStep::Merge
        }
    }

    /// The id of the root to merge at.
    pub fn target(&self) -> (res: &str)
        requires
            self@.targets.len() > 0,
        ensures
            res@ == self@.targets[0].commit_id,
    {
        assert(self@.targets.len() == self.targets@.len());
        assert(self@.targets[0] == self.targets@[0]@);
        self.targets[0].commit_id.as_str()
    }
}

// ---------------------------------------------------------------------------
// Laws

/// What holds of a resolution at any time.
pub open spec fn run_ok(run: RunView) -> bool {
    &&& 0 <= run.pass <= MAX_PASSES + 1
    &&& run.resolved.len() <= run.pass
    &&& !run.apply ==> run.resolved.len() == 0 && run.skipped.len() == 0
    &&& forall|i: int|
        0 <= i < run.resolved.len() ==> 1 <= (#[trigger] run.resolved[i]).pass <= run.pass
    &&& forall|i: int|
        0 <= i < run.targets.len() ==> (#[trigger] run.targets[i]).paths.contains(run.file)
}

/// A resolution ends: after the passes are used up no census asks for more,
/// and within a pass each step uses up a target or asks for a new census. What
/// is tried carries the file and was not skipped before.
pub proof fn law_resolution_is_bounded(run: RunView, roots: Seq<RootView>)
    requires
        run_ok(run),
        run.resolved.len() < run.pass || run.targets.len() == 0,
        run.pass <= MAX_PASSES,
    ensures
        ({
            let (next, step) = census_step(run, roots);
            &&& run_ok(next)
            &&& next.resolved.len() < next.pass
            &&& step == UnionStep::Merge ==> next.pass <= MAX_PASSES && next.targets.len() > 0
            &&& forall|i: int|
                0 <= i < next.targets.len() ==> {
                    &&& roots.contains(#[trigger] next.targets[i])
                    &&& !run.skipped.contains(next.targets[i].commit_id)
                }
        }),
        run.targets.len() > 0 && run.apply ==> {
            let (resolved, _) = resolved_step(run);
            let (skipped, step) = skipped_step(run);
            &&& run_ok(resolved)
            &&& resolved.targets.len() == 0
            &&& resolved.resolved.len() <= resolved.pass
            &&& run_ok(skipped)
            &&& skipped.targets.len() < run.targets.len()
            &&& skipped.skipped.contains(run.targets[0].commit_id)
            &&& (step == UnionStep::Merge <==> skipped.targets.len() > 0)
        },
{
    let keep = is_target(run.file, run.skipped);
    let targets = roots.filter(keep);
    assert forall|i: int| 0 <= i < targets.len() implies {
        &&& roots.contains(#[trigger] targets[i])
        &&& targets[i].paths.contains(run.file)
        &&& !run.skipped.contains(targets[i].commit_id)
    } by {
        assert(targets.contains(targets[i]));
        roots.lemma_filter_contains_rev(keep, targets[i]);
        roots.lemma_filter_pred(keep, i);
    }
    if run.targets.len() > 0 && run.apply {
        let (skipped, _) = skipped_step(run);
        assert(skipped.skipped.last() == run.targets[0].commit_id);
    }
}

/// The passes of a resolution that is about to take `step`: each pass that is
/// over resolved one root, and the pass under way, if there is one, none yet.
pub open spec fn passes_add_up(run: RunView, step: UnionStep) -> bool {
    match step {
        UnionStep::SnapshotLive => run.pass == 0 && run.resolved.len() == 0,
        UnionStep::Census => run.pass == run.resolved.len(),
        _ => run.pass == run.resolved.len() + 1,
    }
}

/// A resolution resolves one root in each pass but the last, in which it
/// resolves none: this holds at the start and every step keeps it, so that a
/// resolution that has ended took one pass more than it resolved roots.
pub proof fn law_one_root_per_pass(run: RunView, roots: Seq<RootView>, file: Seq<char>, apply: bool)
    ensures
        passes_add_up(fresh_run(file, apply), opening_step(apply)),
        passes_add_up(fresh_run(file, apply), UnionStep::SnapshotLive) && passes_add_up(
            fresh_run(file, apply),
            snapshotted_step(),
        ),
        passes_add_up(run, UnionStep::Census) ==> passes_add_up(
            census_step(run, roots).0,
            census_step(run, roots).1,
        ),
        passes_add_up(run, UnionStep::Merge) && run.targets.len() > 0 ==> passes_add_up(
            resolved_step(run).0,
            resolved_step(run).1,
        ) && passes_add_up(skipped_step(run).0, skipped_step(run).1),
        passes_add_up(run, UnionStep::Done) || passes_add_up(run, UnionStep::OutOfPasses)
            || passes_add_up(run, UnionStep::Planned) ==> passes_add_up(run, closing_step(run.apply))
            && passes_add_up(run, recovered_step()) && run.pass == run.resolved.len() + 1,
{
}

/// A resolution that may rewrite history snapshots the live workspaces first
/// and recovers them after it has stopped: where any census can lead to a
/// merge, both are done.
pub proof fn law_live_workspaces_are_kept(run: RunView, roots: Seq<RootView>)
    ensures
        census_step(run, roots).1 == UnionStep::Merge ==> opening_step(run.apply)
            == UnionStep::SnapshotLive && closing_step(run.apply) == UnionStep::RecoverLive,
{
}

/// A census that is asked about some revset reports a root exactly where the
/// revset holds it, and marks it as blocking exactly where the landing target
/// carries it.
pub proof fn law_census_is_scoped(roots: Seq<CensusRoot>, entry: CensusRoot)
    ensures
        roots.filter(asked_about()).contains(entry) <==> roots.contains(entry) && entry.in_scope,
        triage_mark(entry.in_target) == "  [BLOCKS TARGET]"@ <==> entry.in_target == Some(true),
        triage_mark(entry.in_target) == "  [stranded]"@ <==> entry.in_target == Some(false),
{
    let keep = asked_about();
    reveal_strlit("  [BLOCKS TARGET]");
    reveal_strlit("  [stranded]");
    assert("  [BLOCKS TARGET]"@.len() == 17);
    assert("  [stranded]"@.len() == 12);
    if roots.filter(keep).contains(entry) {
        let i = choose|i: int|
            0 <= i < roots.filter(keep).len() && roots.filter(keep)[i] == entry;
        roots.lemma_filter_pred(keep, i);
        roots.lemma_filter_contains_rev(keep, entry);
    }
    if roots.contains(entry) && entry.in_scope {
        let i = choose|i: int| 0 <= i < roots.len() && roots[i] == entry;
        roots.lemma_filter_contains(keep, i);
    }
}

/// A plan resolves nothing: whatever the roots are, the census of a fresh
/// planning run never asks for a merge.
pub proof fn law_plan_touches_nothing(file: Seq<char>, roots: Seq<RootView>)
    ensures
        census_step(fresh_run(file, false), roots).1 == UnionStep::Done || census_step(
            fresh_run(file, false),
            roots,
        ).1 == UnionStep::Planned,
        census_step(fresh_run(file, false), roots).0.resolved.len() == 0,
{
}

/// At the fixpoint nothing is left: where a census ends a resolution, no root
/// but those found not union-safe carries the file.
pub proof fn law_done_is_a_fixpoint(run: RunView, roots: Seq<RootView>, i: int)
    requires
        census_step(run, roots).1 == UnionStep::Done,
        0 <= i < roots.len(),
        roots[i].paths.contains(run.file),
    ensures
        run.skipped.contains(roots[i].commit_id),
{
    let keep = is_target(run.file, run.skipped);
    if !run.skipped.contains(roots[i].commit_id) {
        roots.lemma_filter_contains(keep, i);
        assert(roots.filter(keep).len() == 0);
    }
}

// ---------------------------------------------------------------------------
// Reports

/// Roots that a plan would resolve, in machine output.
pub open spec fn planned_views(targets: Seq<RootView>) -> Seq<ResolvedView> {
    targets.map_values(
        |r: RootView|
            ResolvedView {
                commit_id: r.commit_id,
                conflicted_descendants: r.conflicted_descendants,
                pass: 0,
            },
    )
}

/// The roots that a plan would resolve, for machine output.
pub fn planned_json(targets: &Vec<ConflictRoot>) -> (res: Vec<ResolvedRoot>)
    ensures
        resolved_views(res@) == planned_views(engine::root_views(targets@)),
{
    let ghost all = planned_views(engine::root_views(targets@));
    let mut out: Vec<ResolvedRoot> = Vec::new();
    let mut i: usize = 0;
    assert(resolved_views(out@) =~= all.take(0));
    while i < targets.len()
        invariant
            i <= targets@.len(),
            all == planned_views(engine::root_views(targets@)),
            resolved_views(out@) == all.take(i as int),
        decreases targets@.len() - i,
    {
        let ghost before = out@;
        let entry = ResolvedRoot {
            commit_id: copy(targets[i].commit_id.as_str()),
            conflicted_descendants: targets[i].conflicted_descendants,
            pass: 0,
        };
        let ghost view = entry@;
        out.push(entry);
        i = i + 1;
        proof {
            assert(resolved_views(out@) =~= resolved_views(before).push(view));
            assert(all.take(i as int) =~= all.take(i - 1).push(all[i - 1]));
        }
    }
    assert(all.take(i as int) =~= all);
    out
}

/// The machine output on one file.
#[derive(Debug, PartialEq, Eq)]
pub struct FileResolveReport {
    pub file: String,
    pub strategy: String,
    pub applied: bool,
    pub passes: usize,
    pub roots: Vec<ResolvedRoot>,
    pub skipped: Vec<String>,
}

/// The machine output says what the run did, or what it would do.
pub open spec fn file_report_matches(report: FileResolveReport, run: RunView) -> bool {
    &&& report.file@ == run.file
    &&& report.strategy@ == "union"@
    &&& report.applied == run.apply
    &&& report.passes == run.pass
    &&& resolved_views(report.roots@) == if run.apply {
        run.resolved
    } else {
        planned_views(run.targets)
    }
    &&& text::views(report.skipped@) == run.skipped
}

fn copy_resolved(roots: &Vec<ResolvedRoot>) -> (res: Vec<ResolvedRoot>)
    ensures
        resolved_views(res@) == resolved_views(roots@),
{
    let ghost all = resolved_views(roots@);
    let mut out: Vec<ResolvedRoot> = Vec::new();
    let mut i: usize = 0;
    assert(resolved_views(out@) =~= all.take(0));
    while i < roots.len()
        invariant
            i <= roots@.len(),
            all == resolved_views(roots@),
            resolved_views(out@) == all.take(i as int),
        decreases roots@.len() - i,
    {
        let ghost before = out@;
        let entry = ResolvedRoot {
            commit_id: copy(roots[i].commit_id.as_str()),
            conflicted_descendants: roots[i].conflicted_descendants,
            pass: roots[i].pass,
        };
        let ghost view = entry@;
        out.push(entry);
        i = i + 1;
        proof {
            assert(resolved_views(out@) =~= resolved_views(before).push(view));
            assert(all.take(i as int) =~= all.take(i - 1).push(all[i - 1]));
        }
    }
    assert(all.take(i as int) =~= all);
    out
}

/// The lines of a plan.
pub open spec fn union_plan_lines(file: Seq<char>, targets: Seq<RootView>) -> Seq<Seq<char>> {
    seq![
        "would union-resolve '"@ + file + "' at "@ + text::decimal(targets.len())
            + " conflict root(s):"@,
    ] + targets.map_values(|r: RootView| union_plan_row(r)) + seq![
        ""@,
        "plan only; rerun with --apply to resolve"@,
        "note: descendants that independently changed '"@ + file
            + "' re-conflict in the same shape; --apply loops until fixpoint"@,
    ]
}

/// The line of a plan on one root.
pub open spec fn union_plan_row(root: RootView) -> Seq<char> {
    "  "@ + root.commit_id + "  (blast "@ + text::decimal(root.conflicted_descendants as nat)
        + ": descendants re-merge automatically)"@
}

/// Render a plan, one text per line.
pub fn render_union_plan(file: &str, targets: &Vec<ConflictRoot>) -> (res: Vec<String>)
    ensures
        text::views(res@) == union_plan_lines(file@, engine::root_views(targets@)),
{
    broadcast use text::lemma_views_push;

    let ghost views = engine::root_views(targets@);
    let ghost rows = views.map_values(|r: RootView| union_plan_row(r));
    let mut out: Vec<String> = vec![
        cat5(
            "would union-resolve '",
            file,
            "' at ",
            size_number(targets.len()).as_str(),
            " conflict root(s):",
        ),
    ];
    let ghost head = text::views(out@);
    let mut i: usize = 0;
    assert(head + rows.take(0) =~= head);
    while i < targets.len()
        invariant
            i <= targets@.len(),
            views == engine::root_views(targets@),
            rows == views.map_values(|r: RootView| union_plan_row(r)),
            text::views(out@) == head + rows.take(i as int),
        decreases targets@.len() - i,
    {
        out.push(
            cat5(
                "  ",
                targets[i].commit_id.as_str(),
                "  (blast ",
                size_number(targets[i].conflicted_descendants).as_str(),
                ": descendants re-merge automatically)",
            ),
        );
        i = i + 1;
        assert(head + rows.take(i as int) =~= (head + rows.take(i - 1)).push(rows[i - 1]));
    }
    assert(rows.take(i as int) =~= rows);
    out.push(copy(""));
    out.push(copy("plan only; rerun with --apply to resolve"));
    out.push(
        cat3(
            "note: descendants that independently changed '",
            file,
            "' re-conflict in the same shape; --apply loops until fixpoint",
        ),
    );
    assert(text::views(out@) =~= union_plan_lines(file@, views));
    out
}

/// The lines that close a resolution.
pub open spec fn union_closing(run: RunView) -> Seq<Seq<char>> {
    if run.apply {
        let head = seq![
            ""@,
            "union-resolved '"@ + run.file + "' at "@ + text::decimal(run.resolved.len())
                + " root(s) across "@ + text::decimal(run.pass as nat) + " pass(es)"@,
        ];
        let skips = if run.skipped.len() > 0 {
            head.push(
                "  "@ + text::decimal(run.skipped.len()) + " root(s) skipped as not union-safe"@,
            )
        } else {
            head
        };
        skips.push("  every resolution is a separate jj operation; jj op log to review"@)
    } else if run.targets.len() > 0 {
        union_plan_lines(run.file, run.targets)
    } else {
        seq![
            "no conflict roots carry '"@ + run.file + "' \u{2014} nothing to resolve"@,
        ]
    }
}

impl UnionRun {
    /// The line on the first target where it was just resolved.
    pub fn resolved_line(&self) -> (res: String)
        requires
            self@.targets.len() > 0,
        ensures
            res@ == "resolved '"@ + self@.file + "' at "@ + self@.targets[0].commit_id + " (pass "@
                + text::decimal(self@.pass as nat) + ")"@,
    {
        cat7(
            "resolved '",
            self.file.as_str(),
            "' at ",
            self.target(),
            " (pass ",
            size_number(self.pass).as_str(),
            ")",
        )
    }

    /// The line on the first target where it is not union-safe.
    pub fn skipped_line(&self) -> (res: String)
        requires
            self@.targets.len() > 0,
        ensures
            res@ == "skip "@ + self@.targets[0].commit_id + ": '"@ + self@.file
                + "' conflict is not union-safe (deleted side, binary, or non-file)"@,
    {
        cat5(
            "skip ",
            self.target(),
            ": '",
            self.file.as_str(),
            "' conflict is not union-safe (deleted side, binary, or non-file)",
        )
    }

    /// The line where the passes are used up.
    pub fn out_of_passes_line(&self) -> (res: String)
        ensures
            res@ == "stopped after "@ + text::decimal(MAX_PASSES as nat)
                + " passes; rerun to continue"@,
    {
        cat3("stopped after ", size_number(MAX_PASSES).as_str(), " passes; rerun to continue")
    }

    /// The lines that close a resolution.
    pub fn closing(&self) -> (res: Vec<String>)
        ensures
            text::views(res@) == union_closing(self@),
    {
        broadcast use text::lemma_views_push;

        assert(self@.targets.len() == self.targets@.len());
        assert(self@.resolved.len() == self.resolved@.len());
        assert(self@.skipped.len() == self.skipped@.len());
        if self.apply {
            let mut summary = cat5(
                "union-resolved '",
                self.file.as_str(),
                "' at ",
                size_number(self.resolved.len()).as_str(),
                " root(s) across ",
            );
            summary.append(size_number(self.pass).as_str());
            summary.append(" pass(es)");
            let mut out: Vec<String> = vec![copy(""), summary];
            if self.skipped.len() > 0 {
                out.push(
                    cat3(
                        "  ",
                        size_number(self.skipped.len()).as_str(),
                        " root(s) skipped as not union-safe",
                    ),
                );
            }
            out.push(copy("  every resolution is a separate jj operation; jj op log to review"));
            assert(text::views(out@) =~= union_closing(self@));
            out
        } else if self.targets.len() > 0 {
            render_union_plan(self.file.as_str(), &self.targets)
        } else {
            let out: Vec<String> = vec![
                cat3(
                    "no conflict roots carry '",
                    self.file.as_str(),
                    "' \u{2014} nothing to resolve",
                ),
            ];
            assert(text::views(out@) =~= union_closing(self@));
            out
        }
    }

    /// The machine output of a resolution.
    pub fn report(&self) -> (res: FileResolveReport)
        ensures
            file_report_matches(res, self@),
    {
        let roots = if self.apply {
            copy_resolved(&self.resolved)
        } else {
            planned_json(&self.targets)
        };
        FileResolveReport {
            file: copy(self.file.as_str()),
            strategy: copy("union"),
            applied: self.apply,
            passes: self.pass,
            roots,
            skipped: copy_all(&self.skipped),
        }
    }
}

// ---------------------------------------------------------------------------
// Writing a merged content into history

/// What is known while a merged content is written into a revision.
pub struct ApplyFacts {
    /// A step failed.
    pub failed: bool,
    /// The content was handed to jj's merge tool.
    pub resolved: bool,
    /// The scratch workspace was created, or may have been.
    pub added: bool,
    /// The content was written into the scratch workspace.
    pub written: bool,
    /// The scratch workspace's change was moved into the revision.
    pub squashed: bool,
    /// The scratch workspace was forgotten.
    pub forgotten: bool,
    /// The scratch workspace's directory was deleted.
    pub deleted: bool,
}

/// The next step of writing a merged content into a revision.
#[derive(Debug, PartialEq, Eq)]
pub enum ApplyStep {
    /// Let a merge tool put the prepared file into place.
    Resolve(JjRequest),
    /// Create a scratch workspace on the revision.
    AddScratch(JjRequest),
    /// In the scratch workspace: write the content into the file.
    WriteFile,
    /// In the scratch workspace: move the change into the revision.
    Squash(JjRequest),
    /// Forget the scratch workspace.
    Forget(JjRequest),
    /// Delete the scratch workspace's directory.
    DeleteDirectory,
    /// Nothing is left to do; says whether the content is in the revision.
    Done(bool),
}

/// A step of writing a merged content as mathematical values.
pub enum ApplyStepView {
    Resolve(Seq<Seq<char>>),
    AddScratch(Seq<Seq<char>>),
    WriteFile,
    Squash(Seq<Seq<char>>),
    Forget(Seq<Seq<char>>),
    DeleteDirectory,
    Done(bool),
}

impl View for ApplyStep {
    type V = ApplyStepView;

    open spec fn view(&self) -> ApplyStepView {
        match self {
            ApplyStep::Resolve(r) => ApplyStepView::Resolve(r@),
            ApplyStep::AddScratch(r) => ApplyStepView::AddScratch(r@),
            ApplyStep::WriteFile => ApplyStepView::WriteFile,
            ApplyStep::Squash(r) => ApplyStepView::Squash(r@),
            ApplyStep::Forget(r) => ApplyStepView::Forget(r@),
            ApplyStep::DeleteDirectory => ApplyStepView::DeleteDirectory,
            ApplyStep::Done(applied) => ApplyStepView::Done(*applied),
        }
    }
}

/// Where a merged content goes, and through what.
pub struct ApplyTarget {
    /// The revision.
    pub revision: String,
    /// The file, relative to the repo.
    pub file: String,
    /// The file that holds the merged content.
    pub prepared: String,
    /// The name of the scratch workspace.
    pub scratch: WorkspaceName,
    /// The directory of the scratch workspace.
    pub scratch_root: String,
}

/// The next step. A merge tool can only apply the resolution of two sides;
/// that of more is written in a scratch workspace on top of the revision and
/// moved into it, and the scratch workspace is cleaned away in any case.
pub open spec fn apply_next(sides: nat, target: ApplyTarget, facts: ApplyFacts) -> ApplyStepView {
    if sides <= 2 {
        if facts.failed || facts.resolved {
            ApplyStepView::Done(facts.resolved && !facts.failed)
        } else {
            ApplyStepView::Resolve(
                jj::resolve_prepared_args(target.revision@, target.file@, target.prepared@),
            )
        }
    } else if !facts.failed && !facts.added {
        ApplyStepView::AddScratch(
            jj::workspace_add_args(
                target.scratch@,
                target.scratch_root@,
                Some(target.revision@),
                None,
            ),
        )
    } else if !facts.failed && !facts.written {
        ApplyStepView::WriteFile
    } else if !facts.failed && !facts.squashed {
        ApplyStepView::Squash(jj::squash_into_args(target.revision@))
    } else if facts.added && !facts.forgotten {
        ApplyStepView::Forget(jj::workspace_forget_args(target.scratch@))
    } else if facts.added && !facts.deleted {
        ApplyStepView::DeleteDirectory
    } else {
        ApplyStepView::Done(facts.squashed && !facts.failed)
    }
}

/// Decide the next step of writing a merged content into a revision.
pub fn apply_step(sides: usize, target: &ApplyTarget, facts: &ApplyFacts) -> (res: ApplyStep)
    ensures
        res@ == apply_next(sides as nat, *target, *facts),
{
    if sides <= 2 {
        return if facts.failed || facts.resolved {
            ApplyStep::Done(facts.resolved && !facts.failed)
        } else {
            ApplyStep::Resolve(
                JjRequest::resolve_with_prepared_file(
                    target.revision.as_str(),
                    target.file.as_str(),
                    target.prepared.as_str(),
                ),
            )
        };
    }
    if !facts.failed && !facts.added {
        ApplyStep::AddScratch(
            JjRequest::workspace_add(
                &target.scratch,
                target.scratch_root.as_str(),
                &Some(copy(target.revision.as_str())),
                &None,
            ),
        )
    } else if !facts.failed && !facts.written {
        ApplyStep::WriteFile
    } else if !facts.failed && !facts.squashed {
        ApplyStep::Squash(JjRequest::squash_into(target.revision.as_str()))
    } else if facts.added && !facts.forgotten {
        ApplyStep::Forget(JjRequest::workspace_forget(target.scratch.as_str()))
    } else if facts.added && !facts.deleted {
        ApplyStep::DeleteDirectory
    } else {
        ApplyStep::Done(facts.squashed && !facts.failed)
    }
}

/// The scratch workspace cleans up after itself: writing a content ends only
/// where no scratch workspace was created, or it is forgotten and its
/// directory deleted; and it ends well only where no step failed and the
/// content is in the revision.
pub proof fn law_scratch_is_cleaned(sides: nat, target: ApplyTarget, facts: ApplyFacts, applied: bool)
    requires
        apply_next(sides, target, facts) == ApplyStepView::Done(applied),
    ensures
        sides > 2 && facts.added ==> facts.forgotten && facts.deleted,
        applied ==> !facts.failed && (facts.resolved || facts.squashed),
{
}

/// The name of the file that holds a merged content for jj to pick up.
pub fn prepared_file_name(target_file: &str, process_id: u32) -> (res: String)
    ensures
        res@ == "navi-resolve-"@ + text::decimal(process_id as nat) + "-"@ + text::replace_char(
            text::replace_char(target_file@, '/', "-"@),
            '\\',
            "-"@,
        ),
{
    let flat = replaced(replaced(target_file, '/', "-").as_str(), '\\', "-");
    cat4("navi-resolve-", number(process_id as u128).as_str(), "-", flat.as_str())
}

// ---------------------------------------------------------------------------
// What a census counts, and what a resolution takes on

/// What roots explain adds up over them, and one root explains the conflicted
/// commits that descend from it.
pub proof fn law_explained_adds_up(some: Seq<CensusRoot>, more: Seq<CensusRoot>)
    ensures
        explained(some + more) == explained(some) + explained(more),
        forall|r: CensusRoot| #[trigger]
            explained(seq![r]) == r.root.conflicted_descendants as nat,
    decreases more.len(),
{
    if more.len() == 0 {
        assert(some + more =~= some);
    } else {
        law_explained_adds_up(some, more.drop_last());
        assert((some + more).drop_last() =~= some + more.drop_last());
    }
    assert forall|r: CensusRoot| #[trigger]
        explained(seq![r]) == r.root.conflicted_descendants as nat by {
        reveal_with_fuel(explained, 2);
        assert(seq![r].drop_last() =~= Seq::<CensusRoot>::empty());
        assert(seq![r].last() == r);
    }
}

/// The report counts the roots and has one line for each, in their order, which
/// begins with the commit.
pub proof fn law_census_lists_every_root(roots: Seq<CensusRoot>, i: int)
    requires
        0 <= i < roots.len(),
    ensures
        census_lines(roots).len() == roots.len() + 3,
        census_lines(roots)[0] == text::decimal(roots.len()) + " conflict root(s) explain ~"@
            + text::decimal(explained(roots)) + " conflicted commit(s)"@,
        text::starts_with(
            census_lines(roots)[i + 1],
            "  "@ + roots[i].root.commit_id@ + "  blast "@ + text::decimal(
                roots[i].root.conflicted_descendants as nat,
            ),
        ),
{
    let row = census_row(roots[i]);
    assert(census_lines(roots)[i + 1] == row);
    let head = "  "@ + roots[i].root.commit_id@ + "  blast "@ + text::decimal(
        roots[i].root.conflicted_descendants as nat,
    );
    assert(row.take(head.len() as int) =~= head);
}

/// A pass takes on exactly the roots that carry the file and were not skipped;
/// it merges where there is one, something is to be applied, and fewer than
/// eleven passes were begun.
pub proof fn law_pass_takes_on_exactly(run: RunView, roots: Seq<RootView>, root: RootView)
    ensures
        ({
            let (next, step) = census_step(run, roots);
            &&& next.targets.contains(root) <==> roots.contains(root) && root.paths.contains(
                run.file,
            ) && !run.skipped.contains(root.commit_id)
            &&& next.pass == run.pass + 1
            &&& next.file == run.file && next.apply == run.apply && next.resolved == run.resolved
                && next.skipped == run.skipped
            &&& step == UnionStep::Done <==> next.targets.len() == 0
            &&& step == UnionStep::Planned <==> next.targets.len() > 0 && !run.apply
            &&& step == UnionStep::OutOfPasses <==> next.targets.len() > 0 && run.apply && run.pass
                >= 10
            &&& step == UnionStep::Merge <==> next.targets.len() > 0 && run.apply && run.pass < 10
        }),
{
    let keep = is_target(run.file, run.skipped);
    let targets = roots.filter(keep);
    if targets.contains(root) {
        let i = choose|i: int| 0 <= i < targets.len() && targets[i] == root;
        roots.lemma_filter_pred(keep, i);
        roots.lemma_filter_contains_rev(keep, root);
    }
    if roots.contains(root) && keep(root) {
        let i = choose|i: int| 0 <= i < roots.len() && roots[i] == root;
        roots.lemma_filter_contains(keep, i);
    }
}

/// A merge is about the first target: one that worked is reported with the
/// pass it came in, after which the roots are read anew; one that did not is
/// remembered as skipped, and the others are tried in their order.
pub proof fn law_merge_is_about_the_first_target(run: RunView)
    requires
        run.targets.len() > 0,
    ensures
        ({
            let (done, step) = resolved_step(run);
            &&& step == UnionStep::Census
            &&& done.resolved.len() == run.resolved.len() + 1
            &&& done.resolved.drop_last() == run.resolved
            &&& done.resolved.last().commit_id == run.targets[0].commit_id
            &&& done.resolved.last().conflicted_descendants == run.targets[0].conflicted_descendants
            &&& done.resolved.last().pass == run.pass
            &&& done.skipped == run.skipped && done.pass == run.pass && done.file == run.file
                && done.apply == run.apply
        }),
        ({
            let (next, step) = skipped_step(run);
            &&& run.targets == seq![run.targets[0]] + next.targets
            &&& next.skipped == run.skipped + seq![run.targets[0].commit_id]
            &&& next.resolved == run.resolved && next.pass == run.pass && next.file == run.file
                && next.apply == run.apply
            &&& step == UnionStep::Done <==> run.targets.len() == 1
            &&& step == UnionStep::Merge <==> run.targets.len() > 1
        }),
{
    assert(resolved_step(run).0.resolved.drop_last() =~= run.resolved);
    assert(run.targets =~= seq![run.targets[0]] + skipped_step(run).0.targets);
    assert(skipped_step(run).0.skipped =~= run.skipped + seq![run.targets[0].commit_id]);
}

/// A resolution that is applied snapshots, reads, and recovers before it
/// reports; one that is only planned reads and reports.
pub proof fn law_resolution_opens_and_closes()
    ensures
        opening_step(true) == UnionStep::SnapshotLive,
        opening_step(false) == UnionStep::Census,
        snapshotted_step() == UnionStep::Census,
        closing_step(true) == UnionStep::RecoverLive,
        closing_step(false) == UnionStep::Report,
        recovered_step() == UnionStep::Report,
{
}

/// The machine output lists, in their order, the roots that were resolved, or
/// those that a plan would resolve, which came in no pass.
pub proof fn law_file_report_is_of_the_run(report: FileResolveReport, run: RunView, i: int)
    requires
        file_report_matches(report, run),
    ensures
        report.file@ == run.file && report.applied == run.apply && report.passes == run.pass,
        text::views(report.skipped@) == run.skipped,
        run.apply ==> report.roots@.len() == run.resolved.len(),
        run.apply && 0 <= i < run.resolved.len() ==> report.roots@[i]@ == run.resolved[i],
        !run.apply ==> report.roots@.len() == run.targets.len(),
        !run.apply && 0 <= i < run.targets.len() ==> report.roots@[i].commit_id@
            == run.targets[i].commit_id && report.roots@[i].conflicted_descendants
            == run.targets[i].conflicted_descendants && report.roots@[i].pass == 0,
{
    let views = resolved_views(report.roots@);
    assert(views.len() == report.roots@.len());
    if 0 <= i < report.roots@.len() {
        assert(views[i] == report.roots@[i]@);
    }
}

/// A content with at most two sides goes through jj's merge tool; one with more
/// is written in a scratch workspace on the revision and moved into it, and
/// then the scratch workspace is forgotten and its directory deleted.
pub proof fn law_apply_goes_through(sides: nat, target: ApplyTarget)
    ensures
        ({
            let start = ApplyFacts {
                failed: false,
                resolved: false,
                added: false,
                written: false,
                squashed: false,
                forgotten: false,
                deleted: false,
            };
            let added = ApplyFacts { added: true, ..start };
            let written = ApplyFacts { written: true, ..added };
            let squashed = ApplyFacts { squashed: true, ..written };
            let forgotten = ApplyFacts { forgotten: true, ..squashed };
            let deleted = ApplyFacts { deleted: true, ..forgotten };
            if sides <= 2 {
                &&& apply_next(sides, target, start) == ApplyStepView::Resolve(
                    jj::resolve_prepared_args(target.revision@, target.file@, target.prepared@),
                )
                &&& apply_next(sides, target, ApplyFacts { resolved: true, ..start })
                    == ApplyStepView::Done(true)
                &&& apply_next(sides, target, ApplyFacts { failed: true, ..start })
                    == ApplyStepView::Done(false)
            } else {
                &&& apply_next(sides, target, start) == ApplyStepView::AddScratch(
                    jj::workspace_add_args(
                        target.scratch@,
                        target.scratch_root@,
                        Some(target.revision@),
                        None,
                    ),
                )
                &&& apply_next(sides, target, added) == ApplyStepView::WriteFile
                &&& apply_next(sides, target, written) == ApplyStepView::Squash(
                    jj::squash_into_args(target.revision@),
                )
                &&& apply_next(sides, target, squashed) == ApplyStepView::Forget(
                    seq!["workspace"@, "forget"@, target.scratch@],
                )
                &&& apply_next(sides, target, forgotten) == ApplyStepView::DeleteDirectory
                &&& apply_next(sides, target, deleted) == ApplyStepView::Done(true)
                &&& apply_next(sides, target, ApplyFacts { failed: true, ..added })
                    == ApplyStepView::Forget(seq!["workspace"@, "forget"@, target.scratch@])
                &&& apply_next(sides, target, ApplyFacts { failed: true, ..start })
                    == ApplyStepView::Done(false)
                &&& apply_next(sides, target, ApplyFacts { failed: true, ..deleted })
                    == ApplyStepView::Done(false)
            }
        }),
{
}

} // verus!
