//! Read-only repository analysis: divergent changes with their provenance,
//! conflict roots, and activity in the operation log. The facts are read from
//! one immutable snapshot of the repo; what follows from them is decided here.

use vstd::prelude::*;

use crate::error::{self, Error, ErrorKind, Result};
use crate::order::{self, sort_falling, sorted_set};
use crate::text::{self, cat2, cat3, chars_of, copy, copy_all, has_prefix, lines_of, prefix_of, same};

verus! {

/// One divergent change: a change id with more than one visible commit.
#[derive(Debug, PartialEq, Eq)]
pub struct DivergentChange {
    /// Change id in jj's reverse-hex display form.
    pub change_id: String,
    /// The visible sibling commits of this change.
    pub siblings: Vec<DivergentSibling>,
}

/// One visible sibling commit of a divergent change.
#[derive(Debug, PartialEq, Eq)]
pub struct DivergentSibling {
    /// Commit id (short hex).
    pub commit_id: String,
    /// First line of the description.
    pub description: String,
    /// Author email.
    pub author_email: String,
    /// Committer timestamp, milliseconds since epoch.
    pub committer_millis: i64,
    /// Operation that created or last rewrote this commit, when known.
    pub op: Option<OpProvenance>,
    /// Workspaces whose working copy is currently this commit.
    pub wc_of: Vec<String>,
    /// Whether the sibling has visible child commits.
    pub has_children: bool,
    /// Whether some workspace's working copy is this commit or one of its
    /// descendants (touching it would rewrite a live chain from outside).
    pub blocks_wc: bool,
}

/// Provenance of a commit: the operation that minted it.
#[derive(Debug, PartialEq, Eq)]
pub struct OpProvenance {
    /// Operation id (short hex).
    pub op_id: String,
    /// Operation end time, milliseconds since epoch.
    pub end_millis: i64,
    /// Operation username.
    pub username: String,
    /// Operation hostname.
    pub hostname: String,
    /// Operation description (for example `snapshot working copy`).
    pub description: String,
}

/// Operation-log activity summary.
#[derive(Clone, Copy, Debug, PartialEq, Eq, Structural)]
pub struct OpChurn {
    /// Operations whose end time falls within the window.
    pub recent: usize,
    /// Whether the walk stopped at the safety cap rather than the window.
    pub capped: bool,
}

/// One conflict root: a commit where conflicts begin (its parents are
/// conflict-free), with the set of conflicted paths.
#[derive(Debug, PartialEq, Eq)]
pub struct ConflictRoot {
    /// Commit id (short hex), usable in revsets.
    pub commit_id: String,
    /// Number of visible descendants (including self) that carry conflicts.
    pub conflicted_descendants: usize,
    /// Conflicted repo-relative paths in this commit's tree.
    pub paths: Vec<String>,
}

// ---------------------------------------------------------------------------
// Facts

/// A commit of a divergent change, as the store holds it.
pub struct CommitFacts {
    /// Commit id in full hex.
    pub commit_hex: String,
    /// Change id in full hex.
    pub change_hex: String,
    /// The whole description.
    pub description: String,
    /// Author email.
    pub author_email: String,
    /// Committer timestamp, milliseconds since epoch.
    pub committer_millis: i64,
}

/// A commit on the walk through predecessors, with the operation that made it.
pub struct ProvenanceFacts {
    /// Commit id in full hex.
    pub commit_hex: String,
    /// The operation, where the walk knows it; its id is in full hex.
    pub op: Option<OpProvenance>,
}

/// The working copy of a workspace.
pub struct WorkingCopyFacts {
    /// Workspace name.
    pub workspace: String,
    /// Its working-copy commit in full hex.
    pub commit_hex: String,
}

/// A commit at which conflicts begin, as the store holds it.
pub struct ConflictFacts {
    /// Commit id in full hex.
    pub commit_hex: String,
    /// Number of visible descendants (including self) that carry conflicts.
    pub conflicted_descendants: usize,
    /// Conflicted repo-relative paths.
    pub paths: Vec<String>,
}

/// What was read from a snapshot of the repo.
pub struct Engine {
    /// The op-log username that this user's operations are recorded under.
    pub username: String,
    /// The commits of all divergent changes.
    pub divergent: Vec<CommitFacts>,
    /// The walk through their predecessors.
    pub provenance: Vec<ProvenanceFacts>,
    /// The working copies.
    pub working_copies: Vec<WorkingCopyFacts>,
    /// For each visible child of a divergent commit, its parents in full hex.
    pub child_parents: Vec<Vec<String>>,
    /// For each working copy above a divergent commit, the divergent commits
    /// below it in full hex.
    pub working_copy_ancestors: Vec<Vec<String>>,
    /// The commits at which conflicts begin.
    pub conflicts: Vec<ConflictFacts>,
    /// End times of operations in milliseconds, newest first.
    pub op_ends: Vec<i64>,
    /// Visible heads in full hex.
    pub heads: Vec<String>,
    /// Visible commits in full hex.
    pub commits: Vec<String>,
}

// ---------------------------------------------------------------------------
// Ids

/// The first twelve characters of an id.
pub open spec fn short(hex: Seq<char>) -> Seq<char> {
    if hex.len() <= 12 {
        hex
    } else {
        hex.take(12)
    }
}

/// A hex digit in the alphabet that jj displays change ids in: `z` for zero
/// down to `k` for fifteen.
pub open spec fn reversed_digit(c: char) -> char {
    if '0' <= c <= '9' {
        ('z' as u32 - (c as u32 - '0' as u32)) as char
    } else if 'a' <= c <= 'f' {
        ('p' as u32 - (c as u32 - 'a' as u32)) as char
    } else {
        c
    }
}

/// A change id as jj displays it.
pub open spec fn reversed(hex: Seq<char>) -> Seq<char> {
    short(hex).map_values(|c: char| reversed_digit(c))
}

/// The first twelve characters of an id.
pub fn short_hex(hex: &str) -> (res: String)
    ensures
        res@ == short(hex@),
{
    prefix_of(hex, 12)
}

/// A change id as jj displays it.
pub fn reverse_hex(hex: &str) -> (res: String)
    ensures
        res@ == reversed(hex@),
{
    let chars = chars_of(short_hex(hex).as_str());
    let ghost want = reversed(hex@);
    let mut out = String::new();
    let mut i: usize = 0;
    assert(out@ =~= want.take(0));
    while i < chars.len()
        invariant
            i <= chars@.len(),
            chars@ == short(hex@),
            want == reversed(hex@),
            out@ == want.take(i as int),
        decreases chars@.len() - i,
    {
        let c: char = chars[i];
        let d: char = if '0' <= c && c <= '9' {
            (122u8 - (c as u8 - 48u8)) as char
        } else if 'a' <= c && c <= 'f' {
            (112u8 - (c as u8 - 97u8)) as char
        } else {
            c
        };
        assert(d == reversed_digit(c));
        out.push(d);
        i = i + 1;
        assert(want.take(i as int) =~= want.take(i - 1).push(want[i - 1]));
    }
    assert(want.take(i as int) =~= want);
    out
}

// ---------------------------------------------------------------------------
// Siblings

/// An operation as mathematical values.
pub struct OpView {
    pub op_id: Seq<char>,
    pub end_millis: i64,
    pub username: Seq<char>,
    pub hostname: Seq<char>,
    pub description: Seq<char>,
}

impl View for OpProvenance {
    type V = OpView;

    open spec fn view(&self) -> OpView {
        OpView {
            op_id: self.op_id@,
            end_millis: self.end_millis,
            username: self.username@,
            hostname: self.hostname@,
            description: self.description@,
        }
    }
}

/// A sibling as mathematical values.
pub struct SiblingView {
    pub commit_id: Seq<char>,
    pub description: Seq<char>,
    pub author_email: Seq<char>,
    pub committer_millis: i64,
    pub op: Option<OpView>,
    pub wc_of: Seq<Seq<char>>,
    pub has_children: bool,
    pub blocks_wc: bool,
}

/// The view of an optional operation.
pub open spec fn op_view(op: Option<OpProvenance>) -> Option<OpView> {
    match op {
        Some(op) => Some(op@),
        None => None,
    }
}

impl View for DivergentSibling {
    type V = SiblingView;

    open spec fn view(&self) -> SiblingView {
        SiblingView {
            commit_id: self.commit_id@,
            description: self.description@,
            author_email: self.author_email@,
            committer_millis: self.committer_millis,
            op: op_view(self.op),
            wc_of: text::views(self.wc_of@),
            has_children: self.has_children,
            blocks_wc: self.blocks_wc,
        }
    }
}

/// The views of a list of siblings.
pub open spec fn sibling_views(siblings: Seq<DivergentSibling>) -> Seq<SiblingView> {
    siblings.map_values(|s: DivergentSibling| s@)
}

/// The first line of a text, empty where it has none.
pub open spec fn first_line(s: Seq<char>) -> Seq<char> {
    if text::lines(s).len() > 0 {
        text::lines(s)[0]
    } else {
        Seq::empty()
    }
}

/// The operation of the first entry, from position `i` on, for a commit.
pub open spec fn provenance_from(entries: Seq<ProvenanceFacts>, hex: Seq<char>, i: int) -> Option<
    OpView,
>
    decreases entries.len() - i,
{
    if i < 0 || i >= entries.len() {
        None
    } else if entries[i].commit_hex@ == hex {
        match entries[i].op {
            Some(op) => Some(OpView { op_id: short(op.op_id@), ..op@ }),
            None => None,
        }
    } else {
        provenance_from(entries, hex, i + 1)
    }
}

/// Being the working copy at a commit.
pub open spec fn is_at(hex: Seq<char>) -> spec_fn(WorkingCopyFacts) -> bool {
    |w: WorkingCopyFacts| w.commit_hex@ == hex
}

/// The names of working copies.
pub open spec fn workspaces_of(copies: Seq<WorkingCopyFacts>) -> Seq<Seq<char>> {
    copies.map_values(|w: WorkingCopyFacts| w.workspace@)
}

/// An id is in one of the lists.
pub open spec fn listed_in(lists: Seq<Vec<String>>, hex: Seq<char>) -> bool {
    exists|i: int| 0 <= i < lists.len() && text::views((#[trigger] lists[i])@).contains(hex)
}

impl Engine {
    /// What is known of a divergent commit.
    pub open spec fn sibling_of(self, commit: CommitFacts) -> SiblingView {
        SiblingView {
            commit_id: short(commit.commit_hex@),
            description: first_line(commit.description@),
            author_email: commit.author_email@,
            committer_millis: commit.committer_millis,
            op: provenance_from(self.provenance@, commit.commit_hex@, 0),
            wc_of: workspaces_of(self.working_copies@.filter(is_at(commit.commit_hex@))),
            has_children: listed_in(self.child_parents@, commit.commit_hex@),
            blocks_wc: listed_in(self.working_copy_ancestors@, commit.commit_hex@),
        }
    }
}

/// When a sibling was minted: when its operation ended, else when it was
/// committed.
pub open spec fn minted_at(sibling: SiblingView) -> int {
    match sibling.op {
        Some(op) => op.end_millis as int,
        None => sibling.committer_millis as int,
    }
}

/// When each sibling was minted.
pub open spec fn minted_times(siblings: Seq<SiblingView>) -> Seq<int> {
    siblings.map_values(|s: SiblingView| minted_at(s))
}

/// The change ids of some commits.
pub open spec fn change_ids(commits: Seq<CommitFacts>) -> Seq<Seq<char>> {
    commits.map_values(|c: CommitFacts| c.change_hex@)
}

/// Belonging to a change.
pub open spec fn is_of(change: Seq<char>) -> spec_fn(CommitFacts) -> bool {
    |c: CommitFacts| c.change_hex@ == change
}

impl Engine {
    /// The siblings of a change, in the order in which they were read.
    pub open spec fn group(self, change: Seq<char>) -> Seq<SiblingView> {
        self.divergent@.filter(is_of(change)).map_values(|c: CommitFacts| self.sibling_of(c))
    }

    /// A divergent change holds the siblings of a change, newest first.
    pub open spec fn change_matches(self, change: DivergentChange, id: Seq<char>) -> bool {
        &&& change.change_id@ == reversed(id)
        &&& order::sorted_falling(
            sibling_views(change.siblings@),
            self.group(id),
            minted_times(self.group(id)),
        )
    }
}

fn copy_op(op: &OpProvenance) -> (res: OpProvenance)
    ensures
        res@ == (OpView { op_id: short(op.op_id@), ..op@ }),
{
    OpProvenance {
        op_id: short_hex(op.op_id.as_str()),
        end_millis: op.end_millis,
        username: copy(op.username.as_str()),
        hostname: copy(op.hostname.as_str()),
        description: copy(op.description.as_str()),
    }
}

fn first_line_of(s: &str) -> (res: String)
    ensures
        res@ == first_line(s@),
{
    let lines = lines_of(s);
    assert(text::views(lines@).len() == lines@.len());
    if lines.len() > 0 {
        assert(text::views(lines@)[0] == lines@[0]@);
        copy(lines[0].as_str())
    } else {
        String::new()
    }
}

fn holds(list: &Vec<String>, hex: &str) -> (res: bool)
    ensures
        res == text::views(list@).contains(hex@),
{
    let ghost all = text::views(list@);
    let mut i: usize = 0;
    while i < list.len()
        invariant
            i <= list@.len(),
            all == text::views(list@),
            forall|k: int| 0 <= k < i ==> #[trigger] all[k] != hex@,
        decreases list@.len() - i,
    {
        assert(all[i as int] == list@[i as int]@);
        if same(list[i].as_str(), hex) {
            return true;
        }
        i = i + 1;
    }
    false
}

fn listed(lists: &Vec<Vec<String>>, hex: &str) -> (res: bool)
    ensures
        res == listed_in(lists@, hex@),
{
    let mut i: usize = 0;
    while i < lists.len()
        invariant
            i <= lists@.len(),
            forall|k: int|
                0 <= k < i ==> !text::views((#[trigger] lists@[k])@).contains(hex@),
        decreases lists@.len() - i,
    {
        if holds(&lists[i], hex) {
            return true;
        }
        i = i + 1;
    }
    false
}

impl Engine {
    /// The op-log username this user's operations are recorded under.
    pub fn operation_username(&self) -> (res: &str)
        ensures
            res@ == self.username@,
    {
        self.username.as_str()
    }

    fn provenance_for(&self, hex: &str) -> (res: Option<OpProvenance>)
        ensures
            op_view(res) == provenance_from(self.provenance@, hex@, 0),
    {
        let mut i: usize = 0;
        while i < self.provenance.len()
            invariant
                i <= self.provenance@.len(),
                provenance_from(self.provenance@, hex@, 0) == provenance_from(
                    self.provenance@,
                    hex@,
                    i as int,
                ),
            decreases self.provenance@.len() - i,
        {
            if same(self.provenance[i].commit_hex.as_str(), hex) {
                return match &self.provenance[i].op {
                    Some(op) => Some(copy_op(op)),
                    None => None,
                };
            }
            i = i + 1;
        }
        None
    }

    fn workspaces_at(&self, hex: &str) -> (res: Vec<String>)
        ensures
            text::views(res@) == workspaces_of(self.working_copies@.filter(is_at(hex@))),
    {
        broadcast use text::lemma_views_push;

        let ghost keep = is_at(hex@);
        let mut out: Vec<String> = Vec::new();
        let mut i: usize = 0;
        proof {
            reveal(Seq::filter);
            text::lemma_views_empty(out@);
            assert(workspaces_of(self.working_copies@.take(0).filter(keep)) =~= Seq::<
                Seq<char>,
            >::empty());
        }
        while i < self.working_copies.len()
            invariant
                i <= self.working_copies@.len(),
                keep == is_at(hex@),
                text::views(out@) == workspaces_of(
                    self.working_copies@.take(i as int).filter(keep),
                ),
            decreases self.working_copies@.len() - i,
        {
            let wc = &self.working_copies[i];
            let ghost kept = self.working_copies@.take(i as int).filter(keep);
            proof {
                reveal(Seq::filter);
                assert(self.working_copies@.take(i + 1).drop_last() == self.working_copies@.take(
                    i as int,
                ));
            }
            if same(wc.commit_hex.as_str(), hex) {
                out.push(copy(wc.workspace.as_str()));
                assert(workspaces_of(kept.push(*wc)) =~= workspaces_of(kept).push(wc.workspace@));
            }
            i = i + 1;
        }
        assert(self.working_copies@.take(i as int) == self.working_copies@);
        out
    }

    fn sibling(&self, commit: &CommitFacts) -> (res: DivergentSibling)
        ensures
            res@ == self.sibling_of(*commit),
    {
        let hex = commit.commit_hex.as_str();
        DivergentSibling {
            commit_id: short_hex(hex),
            description: first_line_of(commit.description.as_str()),
            author_email: copy(commit.author_email.as_str()),
            committer_millis: commit.committer_millis,
            op: self.provenance_for(hex),
            wc_of: self.workspaces_at(hex),
            has_children: listed(&self.child_parents, hex),
            blocks_wc: listed(&self.working_copy_ancestors, hex),
        }
    }

    /// The siblings of a change, newest first.
    fn siblings(&self, change: &str) -> (res: Vec<DivergentSibling>)
        ensures
            order::sorted_falling(
                sibling_views(res@),
                self.group(change@),
                minted_times(self.group(change@)),
            ),
    {
        let ghost keep = is_of(change@);
        let mut out: Vec<DivergentSibling> = Vec::new();
        let mut keys: Vec<i128> = Vec::new();
        let mut i: usize = 0;
        proof {
            reveal(Seq::filter);
            assert(sibling_views(out@) =~= self.divergent@.take(0).filter(keep).map_values(
                |c: CommitFacts| self.sibling_of(c),
            ));
            assert(order::key_values(keys@) =~= minted_times(sibling_views(out@)));
        }
        while i < self.divergent.len()
            invariant
                i <= self.divergent@.len(),
                keep == is_of(change@),
                sibling_views(out@) == self.divergent@.take(i as int).filter(keep).map_values(
                    |c: CommitFacts| self.sibling_of(c),
                ),
                order::key_values(keys@) == minted_times(sibling_views(out@)),
            decreases self.divergent@.len() - i,
        {
            let commit = &self.divergent[i];
            let ghost kept = self.divergent@.take(i as int).filter(keep);
            let ghost before = out@;
            let ghost before_keys = keys@;
            proof {
                reveal(Seq::filter);
                assert(self.divergent@.take(i + 1).drop_last() == self.divergent@.take(i as int));
            }
            if same(commit.change_hex.as_str(), change) {
                let sibling = self.sibling(commit);
                let key: i128 = match &sibling.op {
                    Some(op) => op.end_millis as i128,
                    None => sibling.committer_millis as i128,
                };
                keys.push(key);
                out.push(sibling);
                proof {
                    assert(sibling_views(out@) =~= sibling_views(before).push(sibling@));
                    assert(kept.push(*commit).map_values(|c: CommitFacts| self.sibling_of(c))
                        =~= kept.map_values(|c: CommitFacts| self.sibling_of(c)).push(
                        self.sibling_of(*commit),
                    ));
                    assert(order::key_values(keys@) =~= order::key_values(before_keys).push(
                        key as int,
                    ));
                    assert(minted_times(sibling_views(out@)) =~= minted_times(
                        sibling_views(before),
                    ).push(minted_at(sibling@)));
                }
            }
            i = i + 1;
        }
        proof {
            assert(self.divergent@.take(i as int) == self.divergent@);
            assert(order::key_values(keys@).len() == keys@.len());
            assert(minted_times(sibling_views(out@)).len() == out@.len());
        }
        let ghost unsorted = out@;
        let sorted = sort_falling(out, &keys);
        proof {
            let times = minted_times(self.group(change@));
            let perm = choose|perm: Seq<int>| #[trigger]
                order::falling_positions(perm, times) && sorted@ == perm.map_values(
                    |p: int| unsorted[p],
                );
            assert(sibling_views(sorted@) =~= perm.map_values(|p: int| self.group(change@)[p])) by {
                assert(sibling_views(unsorted) == self.group(change@));
            }
        }
        sorted
    }

    /// Enumerate every divergent change, in order of the change ids, with its
    /// siblings newest first.
    pub fn divergent_changes(&self) -> (res: Vec<DivergentChange>)
        ensures
            exists|ids: Seq<Seq<char>>| #[trigger]
                order::sorted_set_of(ids, change_ids(self.divergent@)) && res@.len() == ids.len()
                    && forall|i: int|
                    0 <= i < res@.len() ==> self.change_matches(#[trigger] res@[i], ids[i]),
    {
        broadcast use text::lemma_views_push;

        let mut all: Vec<String> = Vec::new();
        let mut i: usize = 0;
        let ghost want = change_ids(self.divergent@);
        proof {
            text::lemma_views_empty(all@);
            assert(want.take(0) =~= Seq::<Seq<char>>::empty());
        }
        while i < self.divergent.len()
            invariant
                i <= self.divergent@.len(),
                want == change_ids(self.divergent@),
                text::views(all@) == want.take(i as int),
            decreases self.divergent@.len() - i,
        {
            all.push(copy(self.divergent[i].change_hex.as_str()));
            i = i + 1;
            assert(want.take(i as int) =~= want.take(i - 1).push(want[i - 1]));
        }
        assert(want.take(i as int) =~= want);
        let ids = sorted_set(&all);
        let mut out: Vec<DivergentChange> = Vec::new();
        let mut k: usize = 0;
        while k < ids.len()
            invariant
                k <= ids@.len(),
                out@.len() == k,
                forall|j: int|
                    0 <= j < k ==> self.change_matches(
                        #[trigger] out@[j],
                        text::views(ids@)[j],
                    ),
            decreases ids@.len() - k,
        {
            let id = ids[k].as_str();
            assert(text::views(ids@)[k as int] == id@);
            out.push(
                DivergentChange { change_id: reverse_hex(id), siblings: self.siblings(id) },
            );
            k = k + 1;
        }
        assert(order::sorted_set_of(text::views(ids@), change_ids(self.divergent@)));
        out
    }
}

/// The first sibling of a change is the newest: no other was minted later.
pub proof fn law_first_sibling_is_newest(siblings: Seq<SiblingView>, group: Seq<SiblingView>)
    requires
        order::sorted_falling(siblings, group, minted_times(group)),
        group.len() > 0,
    ensures
        siblings.len() == group.len(),
        forall|i: int|
            0 <= i < siblings.len() ==> minted_at(siblings[0]) >= minted_at(#[trigger] siblings[i]),
{
    let times = minted_times(group);
    let perm = choose|perm: Seq<int>| #[trigger]
        order::falling_positions(perm, times) && siblings == perm.map_values(|p: int| group[p]);
    assert forall|i: int| 0 <= i < siblings.len() implies minted_at(siblings[0]) >= minted_at(
        #[trigger] siblings[i],
    ) by {
        if i > 0 {
            assert(order::falls(times, perm[0], perm[i]));
        }
    }
}

// ---------------------------------------------------------------------------
// Conflict roots

/// A conflict root as mathematical values.
pub struct RootView {
    pub commit_id: Seq<char>,
    pub conflicted_descendants: usize,
    pub paths: Seq<Seq<char>>,
}

impl View for ConflictRoot {
    type V = RootView;

    open spec fn view(&self) -> RootView {
        RootView {
            commit_id: self.commit_id@,
            conflicted_descendants: self.conflicted_descendants,
            paths: text::views(self.paths@),
        }
    }
}

/// The views of a list of conflict roots.
pub open spec fn root_views(roots: Seq<ConflictRoot>) -> Seq<RootView> {
    roots.map_values(|r: ConflictRoot| r@)
}

/// The root that a commit is.
pub open spec fn root_of(facts: ConflictFacts) -> RootView {
    RootView {
        commit_id: short(facts.commit_hex@),
        conflicted_descendants: facts.conflicted_descendants,
        paths: text::views(facts.paths@),
    }
}

/// The roots that some commits are.
pub open spec fn roots_of(facts: Seq<ConflictFacts>) -> Seq<RootView> {
    facts.map_values(|f: ConflictFacts| root_of(f))
}

/// How far each root's conflicts reach.
pub open spec fn blasts(roots: Seq<RootView>) -> Seq<int> {
    roots.map_values(|r: RootView| r.conflicted_descendants as int)
}

impl Engine {
    /// Enumerate conflict roots, the one whose conflicts reach farthest first.
    pub fn conflict_roots(&self) -> (res: Vec<ConflictRoot>)
        ensures
            order::sorted_falling(
                root_views(res@),
                roots_of(self.conflicts@),
                blasts(roots_of(self.conflicts@)),
            ),
    {
        let ghost want = roots_of(self.conflicts@);
        let mut out: Vec<ConflictRoot> = Vec::new();
        let mut keys: Vec<i128> = Vec::new();
        let mut i: usize = 0;
        proof {
            assert(root_views(out@) =~= want.take(0));
            assert(order::key_values(keys@) =~= blasts(want).take(0));
        }
        while i < self.conflicts.len()
            invariant
                i <= self.conflicts@.len(),
                want == roots_of(self.conflicts@),
                root_views(out@) == want.take(i as int),
                order::key_values(keys@) == blasts(want).take(i as int),
            decreases self.conflicts@.len() - i,
        {
            let facts = &self.conflicts[i];
            let ghost before = out@;
            let ghost before_keys = keys@;
            let root = ConflictRoot {
                commit_id: short_hex(facts.commit_hex.as_str()),
                conflicted_descendants: facts.conflicted_descendants,
                paths: copy_all(&facts.paths),
            };
            let key: i128 = facts.conflicted_descendants as i128;
            keys.push(key);
            out.push(root);
            i = i + 1;
            proof {
                assert(root_views(out@) =~= root_views(before).push(root@));
                assert(want.take(i as int) =~= want.take(i - 1).push(want[i - 1]));
                assert(order::key_values(keys@) =~= order::key_values(before_keys).push(
                    key as int,
                ));
                assert(blasts(want).take(i as int) =~= blasts(want).take(i - 1).push(
                    blasts(want)[i - 1],
                ));
            }
        }
        proof {
            assert(want.take(i as int) =~= want);
            assert(blasts(want).take(i as int) =~= blasts(want));
            assert(root_views(out@).len() == out@.len());
            assert(order::key_values(keys@).len() == keys@.len());
        }
        let ghost unsorted = out@;
        let sorted = sort_falling(out, &keys);
        proof {
            let perm = choose|perm: Seq<int>| #[trigger]
                order::falling_positions(perm, blasts(want)) && sorted@ == perm.map_values(
                    |p: int| unsorted[p],
                );
            assert(root_views(sorted@) =~= perm.map_values(|p: int| want[p])) by {
                assert(root_views(unsorted) == want);
            }
        }
        sorted
    }
}

// ---------------------------------------------------------------------------
// Operation churn

/// The time before which an operation is not recent; it saturates.
pub open spec fn cutoff_of(now_millis: int, window_secs: nat) -> int {
    let window = if window_secs * 1000 > u64::MAX {
        u64::MAX as int
    } else {
        (window_secs * 1000) as int
    };
    if now_millis - window < i64::MIN {
        i64::MIN as int
    } else {
        now_millis - window
    }
}

/// How many of the times, from the first on, are not before the cutoff.
pub open spec fn recent_run(ends: Seq<i64>, cutoff: int) -> nat
    decreases ends.len(),
{
    if ends.len() == 0 || ends[0] < cutoff {
        0
    } else {
        1 + recent_run(ends.skip(1), cutoff)
    }
}

/// The time before which an operation is not recent.
pub fn churn_cutoff(now_millis: i64, window_secs: u64) -> (res: i64)
    ensures
        res == cutoff_of(now_millis as int, window_secs as nat),
{
    let product: u128 = window_secs as u128 * 1000;
    let window: i128 = if product > 0xffff_ffff_ffff_ffff {
        0xffff_ffff_ffff_ffff
    } else {
        product as i128
    };
    let start: i128 = now_millis as i128 - window;
    if start < -0x8000_0000_0000_0000 {
        i64::MIN
    } else {
        start as i64
    }
}

impl Engine {
    /// Count operations that ended within the window, looking at no more than
    /// `cap` of them, and at one at least.
    pub fn op_churn(&self, now_millis: i64, window_secs: u64, cap: usize) -> (res: OpChurn)
        ensures
            ({
                let limit = if cap == 0 {
                    1
                } else {
                    cap as nat
                };
                let run = recent_run(
                    self.op_ends@,
                    cutoff_of(now_millis as int, window_secs as nat),
                );
                res == if run >= limit {
                    OpChurn { recent: limit as usize, capped: true }
                } else {
                    OpChurn { recent: run as usize, capped: false }
                }
            }),
    {
        let cutoff: i64 = churn_cutoff(now_millis, window_secs);
        let ghost limit = if cap == 0 {
            1
        } else {
            cap as nat
        };
        let mut recent: usize = 0;
        assert(self.op_ends@.skip(0) == self.op_ends@);
        while recent < self.op_ends.len()
            invariant
                recent <= self.op_ends@.len(),
                recent < limit,
                cutoff == cutoff_of(now_millis as int, window_secs as nat),
                limit == if cap == 0 {
                    1
                } else {
                    cap as nat
                },
                recent_run(self.op_ends@, cutoff as int) == recent + recent_run(
                    self.op_ends@.skip(recent as int),
                    cutoff as int,
                ),
            decreases self.op_ends@.len() - recent,
        {
            let ghost rest = self.op_ends@.skip(recent as int);
            assert(rest[0] == self.op_ends@[recent as int]);
            assert(rest.skip(1) == self.op_ends@.skip(recent + 1));
            if self.op_ends[recent] < cutoff {
                return OpChurn { recent, capped: false };
            }
            recent = recent + 1;
            if recent >= cap {
                return OpChurn { recent, capped: true };
            }
        }
        OpChurn { recent, capped: false }
    }
}

// ---------------------------------------------------------------------------
// Commit prefixes

/// The first of the ids, from position `i` on, that starts with a prefix.
pub open spec fn with_prefix_from(ids: Seq<Seq<char>>, prefix: Seq<char>, i: int) -> Option<
    Seq<char>,
>
    decreases ids.len() - i,
{
    if i < 0 || i >= ids.len() {
        None
    } else if text::starts_with(ids[i], prefix) {
        Some(ids[i])
    } else {
        with_prefix_from(ids, prefix, i + 1)
    }
}

fn find_prefix(ids: &Vec<String>, prefix: &str) -> (res: Option<String>)
    ensures
        text::opt_view(res) == with_prefix_from(text::views(ids@), prefix@, 0),
{
    let ghost all = text::views(ids@);
    let mut i: usize = 0;
    while i < ids.len()
        invariant
            i <= ids@.len(),
            all == text::views(ids@),
            with_prefix_from(all, prefix@, 0) == with_prefix_from(all, prefix@, i as int),
        decreases ids@.len() - i,
    {
        assert(all[i as int] == ids@[i as int]@);
        if has_prefix(ids[i].as_str(), prefix) {
            return Some(copy(ids[i].as_str()));
        }
        i = i + 1;
    }
    None
}

impl Engine {
    /// Resolve a (possibly short) hex commit id: heads first, then all visible
    /// commits.
    pub fn resolve_commit_prefix(&self, commit_id: &str) -> (res: Result<String>)
        ensures
            ({
                let found = match with_prefix_from(text::views(self.heads@), commit_id@, 0) {
                    Some(id) => Some(id),
                    None => with_prefix_from(text::views(self.commits@), commit_id@, 0),
                };
                match res {
                    Ok(id) => found == Some(id@),
                    Err(e) => found is None && e@ == error::about(
                        ErrorKind::Engine,
                        "commit "@ + commit_id@ + " not found"@,
                    ),
                }
            }),
    {
        match find_prefix(&self.heads, commit_id) {
            Some(id) => Ok(id),
            None => match find_prefix(&self.commits, commit_id) {
                Some(id) => Ok(id),
                None => Err(Error::Engine { message: cat3("commit ", commit_id, " not found") }),
            },
        }
    }
}

/// The error of an analysis step that failed.
pub fn engine_error(context: &str, error: &str) -> (res: Error)
    ensures
        res@ == error::about(ErrorKind::Engine, context@ + ": "@ + error@),
{
    Error::Engine { message: cat3(context, ": ", error) }
}

// ---------------------------------------------------------------------------
// Laws

/// An id is shortened to its first twelve characters, and a change id shows
/// each of its hex digits as the letter that many places before `z`.
pub proof fn law_ids_are_shown(hex: Seq<char>, i: int)
    ensures
        short(hex).len() == (if hex.len() < 12 {
            hex.len() as int
        } else {
            12
        }),
        reversed(hex).len() == short(hex).len(),
        0 <= i < short(hex).len() ==> short(hex)[i] == hex[i],
        0 <= i < short(hex).len() && '0' <= hex[i] <= '9' ==> 'z' as int - reversed(hex)[i] as int
            == hex[i] as int - '0' as int,
        0 <= i < short(hex).len() && 'a' <= hex[i] <= 'f' ==> 'z' as int - reversed(hex)[i] as int
            == hex[i] as int - 'a' as int + 10,
{
}

/// A sibling is credited to the operation of the first entry for its commit,
/// and to none where there is no entry.
pub proof fn law_provenance_is_the_first(entries: Seq<ProvenanceFacts>, hex: Seq<char>, from: int, k: int)
    requires
        0 <= from <= k <= entries.len(),
        forall|j: int| from <= j < k ==> (#[trigger] entries[j]).commit_hex@ != hex,
        k < entries.len() ==> entries[k].commit_hex@ == hex,
    ensures
        k == entries.len() ==> provenance_from(entries, hex, from) is None,
        k < entries.len() ==> (match entries[k].op {
            Some(op) => provenance_from(entries, hex, from) matches Some(found) && found.op_id
                == short(op.op_id@) && found.end_millis == op.end_millis && found.username
                == op.username@ && found.hostname == op.hostname@ && found.description
                == op.description@,
            None => provenance_from(entries, hex, from) is None,
        }),
    decreases k - from,
{
    if from < k {
        law_provenance_is_the_first(entries, hex, from + 1, k);
    }
}

/// A sibling is the working copy of exactly the workspaces that stand at its
/// commit; it has children exactly where a visible commit has it as a parent,
/// and stands below a working copy exactly where it is listed below one.
pub proof fn law_sibling_knows_its_place(engine: Engine, commit: CommitFacts, name: Seq<char>)
    ensures
        ({
            let sibling = engine.sibling_of(commit);
            &&& sibling.wc_of.contains(name) <==> exists|i: int|
                0 <= i < engine.working_copies@.len() && (
                #[trigger] engine.working_copies@[i]).commit_hex@ == commit.commit_hex@
                    && engine.working_copies@[i].workspace@ == name
            &&& sibling.has_children <==> exists|i: int|
                0 <= i < engine.child_parents@.len() && text::views(
                    (#[trigger] engine.child_parents@[i])@,
                ).contains(commit.commit_hex@)
            &&& sibling.blocks_wc <==> exists|i: int|
                0 <= i < engine.working_copy_ancestors@.len() && text::views(
                    (#[trigger] engine.working_copy_ancestors@[i])@,
                ).contains(commit.commit_hex@)
            &&& sibling.commit_id == short(commit.commit_hex@)
            &&& sibling.author_email == commit.author_email@
            &&& sibling.committer_millis == commit.committer_millis
        }),
{
    let copies = engine.working_copies@;
    let keep = is_at(commit.commit_hex@);
    let at = copies.filter(keep);
    let names = workspaces_of(at);
    if names.contains(name) {
        let k = choose|k: int| 0 <= k < names.len() && names[k] == name;
        copies.lemma_filter_pred(keep, k);
        copies.lemma_filter_contains_rev(keep, at[k]);
        let i = choose|i: int| 0 <= i < copies.len() && copies[i] == at[k];
        assert(copies[i].workspace@ == name);
    }
    if exists|i: int|
        0 <= i < copies.len() && (#[trigger] copies[i]).commit_hex@ == commit.commit_hex@
            && copies[i].workspace@ == name {
        let i = choose|i: int|
            0 <= i < copies.len() && (#[trigger] copies[i]).commit_hex@ == commit.commit_hex@
                && copies[i].workspace@ == name;
        copies.lemma_filter_contains(keep, i);
        let k = choose|k: int| 0 <= k < at.len() && at[k] == copies[i];
        assert(names[k] == name);
    }
}

/// A sibling counts as minted when its operation ended; only one without a
/// known operation goes by its committer's clock.
pub proof fn law_operation_decides_age(sibling: SiblingView)
    ensures
        sibling.op matches Some(op) ==> minted_at(sibling) == op.end_millis as int,
        sibling.op is None ==> minted_at(sibling) == sibling.committer_millis as int,
{
}

/// A divergent change holds all commits of that change and no others: each is
/// one of its siblings, and each sibling is one of them.
pub proof fn law_change_holds_its_commits(engine: Engine, change: DivergentChange, id: Seq<char>, k: int)
    requires
        engine.change_matches(change, id),
    ensures
        change.change_id@ == reversed(id),
        0 <= k < engine.divergent@.len() && engine.divergent@[k].change_hex@ == id ==> sibling_views(
            change.siblings@,
        ).contains(engine.sibling_of(engine.divergent@[k])),
        0 <= k < change.siblings@.len() ==> exists|j: int|
            0 <= j < engine.divergent@.len() && (#[trigger] engine.divergent@[j]).change_hex@ == id
                && change.siblings@[k]@ == engine.sibling_of(engine.divergent@[j]),
{
    let all = engine.divergent@;
    let keep = is_of(id);
    let kept = all.filter(keep);
    let group = engine.group(id);
    let times = minted_times(group);
    let views = sibling_views(change.siblings@);
    let perm = choose|perm: Seq<int>| #[trigger]
        order::falling_positions(perm, times) && views == perm.map_values(|p: int| group[p]);
    if 0 <= k < all.len() && all[k].change_hex@ == id {
        all.lemma_filter_contains(keep, k);
        let p = choose|p: int| 0 <= p < kept.len() && kept[p] == all[k];
        assert(group[p] == engine.sibling_of(all[k]));
        if perm.len() > 1 {
            order::law_falling_order(perm, times, 0, 1, p);
        } else {
            assert(perm[0] == 0);
        }
        let i = choose|i: int| 0 <= i < perm.len() && perm[i] == p;
        assert(views[i] == group[p]);
    }
    if 0 <= k < change.siblings@.len() {
        assert(views.len() == change.siblings@.len());
        assert(times.len() == group.len() && group.len() == kept.len());
        assert(views[k] == change.siblings@[k]@);
        let p = perm[k];
        assert(0 <= p < kept.len());
        all.lemma_filter_pred(keep, p);
        all.lemma_filter_contains_rev(keep, kept[p]);
        let j = choose|j: int| 0 <= j < all.len() && all[j] == kept[p];
        assert(engine.sibling_of(all[j]) == group[p]);
    }
}

/// Conflict roots come with the farthest reach first, and none is lost.
pub proof fn law_farthest_root_comes_first(
    roots: Seq<RootView>,
    facts: Seq<ConflictFacts>,
    i: int,
    j: int,
)
    requires
        order::sorted_falling(roots, roots_of(facts), blasts(roots_of(facts))),
    ensures
        roots.len() == facts.len(),
        0 <= i < j < roots.len() ==> roots[i].conflicted_descendants
            >= roots[j].conflicted_descendants,
        0 <= i < facts.len() ==> exists|k: int|
            0 <= k < roots.len() && (#[trigger] roots[k]).commit_id == short(facts[i].commit_hex@)
                && roots[k].conflicted_descendants == facts[i].conflicted_descendants
                && roots[k].paths == text::views(facts[i].paths@),
{
    let all = roots_of(facts);
    let keys = blasts(all);
    let perm = choose|perm: Seq<int>| #[trigger]
        order::falling_positions(perm, keys) && roots == perm.map_values(|p: int| all[p]);
    if 0 <= i < j < roots.len() {
        order::law_falling_order(perm, keys, i, j, i);
        assert(roots[i] == all[perm[i]] && roots[j] == all[perm[j]]);
        assert(keys[perm[i]] == all[perm[i]].conflicted_descendants as int);
        assert(keys[perm[j]] == all[perm[j]].conflicted_descendants as int);
    }
    if 0 <= i < facts.len() {
        if perm.len() > 1 {
            order::law_falling_order(perm, keys, 0, 1, i);
        } else {
            assert(perm[0] == 0);
        }
        let k = choose|k: int| 0 <= k < perm.len() && perm[k] == i;
        assert(roots[k] == all[i]);
    }
}

/// The window reaches back its seconds from now, as far as the clock can tell.
pub proof fn law_window_reaches_back(now_millis: i64, window_secs: u64)
    ensures
        window_secs <= 9_000_000_000_000_000 && now_millis >= 0 ==> cutoff_of(
            now_millis as int,
            window_secs as nat,
        ) == now_millis - window_secs * 1000,
        i64::MIN <= cutoff_of(now_millis as int, window_secs as nat) <= now_millis,
{
}

/// The recent operations are those from the newest on up to the first that is
/// before the cutoff.
pub proof fn law_recent_run_stops_at_the_first_old_one(ends: Seq<i64>, cutoff: int)
    ensures
        recent_run(ends, cutoff) <= ends.len(),
        forall|i: int| 0 <= i < recent_run(ends, cutoff) ==> #[trigger] ends[i] >= cutoff,
        recent_run(ends, cutoff) < ends.len() ==> ends[recent_run(ends, cutoff) as int] < cutoff,
    decreases ends.len(),
{
    if ends.len() > 0 && ends[0] >= cutoff {
        let rest = ends.skip(1);
        law_recent_run_stops_at_the_first_old_one(rest, cutoff);
        assert forall|i: int| 0 <= i < recent_run(ends, cutoff) implies #[trigger] ends[i]
            >= cutoff by {
            if i > 0 {
                assert(rest[i - 1] == ends[i]);
            }
        }
        if recent_run(ends, cutoff) < ends.len() {
            assert(rest[recent_run(rest, cutoff) as int] == ends[recent_run(ends, cutoff) as int]);
        }
    }
}

/// A prefix stands for the first id that starts with it, and for none where no
/// id does.
pub proof fn law_prefix_stands_for_the_first(ids: Seq<Seq<char>>, prefix: Seq<char>, from: int)
    requires
        0 <= from,
    ensures
        match with_prefix_from(ids, prefix, from) {
            Some(id) => text::starts_with(id, prefix) && exists|k: int|
                from <= k < ids.len() && #[trigger] ids[k] == id && forall|j: int|
                    from <= j < k ==> !text::starts_with(#[trigger] ids[j], prefix),
            None => forall|j: int|
                from <= j < ids.len() ==> !text::starts_with(#[trigger] ids[j], prefix),
        },
    decreases ids.len() - from,
{
    if from < ids.len() {
        law_prefix_stands_for_the_first(ids, prefix, from + 1);
        if let Some(id) = with_prefix_from(ids, prefix, from) {
            if text::starts_with(ids[from], prefix) {
                assert(ids[from] == id);
            } else {
                let k = choose|k: int|
                    from + 1 <= k < ids.len() && #[trigger] ids[k] == id && forall|j: int|
                        from + 1 <= j < k ==> !text::starts_with(#[trigger] ids[j], prefix);
                assert(ids[k] == id);
            }
        }
    }
}

/// A description is told by its first line.
pub proof fn law_first_line_is_what_stands_before_the_break(line: Seq<char>, rest: Seq<char>)
    requires
        !line.contains('\n'),
        line.len() > 0 ==> line.last() != '\r',
    ensures
        first_line(line + seq!['\n'] + rest) == line,
        first_line(line) == line,
{
    text::law_lines_are_read_one_by_one(line, rest);
    let first: Seq<Seq<char>> = seq![line];
    assert((first + text::lines(rest))[0] == line);
    assert(text::lines(line + seq!['\n'] + rest)[0] == line);
    if line.len() == 0 {
        assert(first_line(line) =~= line);
    }
}

} // verus!
