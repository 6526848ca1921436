//! Bulk-abandoning dead subtrees safely.
//!
//! Cleanup after heavy concurrent work leaves forests of stranded heads. jj's
//! abandon is view-only (commits hide, the op log keeps everything, one
//! `jj op undo` restores), so no file archive is needed; the guards matter
//! instead: never a live working copy's chain, never anything in the landing
//! target's ancestry.

use vstd::prelude::*;

use crate::error::{self, Error, ErrorKind};
use crate::jj::{self, JjRequest};
use crate::text::{self, cat3, cat4, cat5, cat7, char_count, copy, size_number};
use crate::types::LaneRev;

verus! {

/// The landing target, where it resolves.
#[derive(Debug, PartialEq, Eq)]
pub struct LandingTarget {
    /// What messages call it.
    pub label: String,
    /// Its head.
    pub head: String,
}

/// What is known so far of the commits to abandon.
#[derive(Debug, PartialEq, Eq)]
pub struct AbandonFacts {
    /// The commits that the revset selects.
    pub selected: Option<Vec<LaneRev>>,
    /// Those of them in a live working copy's chain.
    pub working_copy_hits: Option<Vec<LaneRev>>,
    /// The landing target; none inside where it does not resolve.
    pub target: Option<Option<LandingTarget>>,
    /// Those of them in the target's ancestry.
    pub target_hits: Option<Vec<LaneRev>>,
}

/// What to do next about a bulk abandon.
#[derive(Debug, PartialEq, Eq)]
pub enum AbandonStep {
    /// Ask which commits are selected.
    Select(JjRequest),
    /// Ask which of them are in a live working copy's chain.
    FindWorkingCopies(JjRequest),
    /// Resolve the landing target.
    ResolveTarget,
    /// Ask which of them are in the target's ancestry.
    FindMainline(JjRequest),
    /// Refuse.
    Refuse(Error),
    /// Report the plan.
    Plan,
    /// Abandon the commits in one operation, under the mutation lock.
    Abandon(JjRequest),
}

/// A step as mathematical values.
pub enum AbandonStepView {
    Select(Seq<Seq<char>>),
    FindWorkingCopies(Seq<Seq<char>>),
    ResolveTarget,
    FindMainline(Seq<Seq<char>>),
    Refuse(error::ErrorView),
    Plan,
    Abandon(Seq<Seq<char>>),
}

impl View for AbandonStep {
    type V = AbandonStepView;

    open spec fn view(&self) -> AbandonStepView {
        match self {
            AbandonStep::Select(r) => AbandonStepView::Select(r@),
            AbandonStep::FindWorkingCopies(r) => AbandonStepView::FindWorkingCopies(r@),
            AbandonStep::ResolveTarget => AbandonStepView::ResolveTarget,
            AbandonStep::FindMainline(r) => AbandonStepView::FindMainline(r@),
            AbandonStep::Refuse(e) => AbandonStepView::Refuse(e@),
            AbandonStep::Plan => AbandonStepView::Plan,
            AbandonStep::Abandon(r) => AbandonStepView::Abandon(r@),
        }
    }
}

/// The ids of some commits.
pub open spec fn commit_ids(revisions: Seq<LaneRev>) -> Seq<Seq<char>> {
    revisions.map_values(|r: LaneRev| r.commit_id@)
}

/// Why nothing is selected.
pub open spec fn nothing_selected(revset: Seq<char>) -> error::ErrorView {
    error::about(ErrorKind::Engine, "revset '"@ + revset + "' selects no commits"@)
}

/// Why a live chain is refused.
pub open spec fn live_chain(revset: Seq<char>, hit: Seq<char>) -> error::ErrorView {
    error::about(
        ErrorKind::Engine,
        "revset '"@ + revset
            + "' includes commits in a live working copy's chain (for example "@ + hit
            + ")\nhint: narrow the revset; working copies are never bulk-abandoned"@,
    )
}

/// Why published history is refused.
pub open spec fn mainline(revset: Seq<char>, label: Seq<char>, hit: Seq<char>) -> error::ErrorView {
    error::about(
        ErrorKind::Engine,
        "revset '"@ + revset + "' includes commits in "@ + label + "'s ancestry (for example "@ + hit
            + ")\nhint: abandon only targets stranded work, never the mainline"@,
    )
}

/// The step once every guard has been passed.
pub open spec fn passed_step(selected: Seq<LaneRev>, apply: bool) -> AbandonStepView {
    if apply {
        AbandonStepView::Abandon(jj::abandon_args(commit_ids(selected)))
    } else {
        AbandonStepView::Plan
    }
}

/// The next step, by what is known.
pub open spec fn abandon_next(revset: Seq<char>, apply: bool, facts: AbandonFacts) -> AbandonStepView {
    match facts.selected {
        None => AbandonStepView::Select(jj::revisions_args(revset)),
        Some(selected) => if selected@.len() == 0 {
            AbandonStepView::Refuse(nothing_selected(revset))
        } else {
            match facts.working_copy_hits {
                None => AbandonStepView::FindWorkingCopies(
                    jj::revisions_args(
                        "("@ + revset + ") & (working_copies() | ::working_copies())"@,
                    ),
                ),
                Some(hits) => if hits@.len() > 0 {
                    AbandonStepView::Refuse(live_chain(revset, hits@[0].commit_id@))
                } else {
                    match facts.target {
                        None => AbandonStepView::ResolveTarget,
                        Some(None) => passed_step(selected@, apply),
                        Some(Some(target)) => match facts.target_hits {
                            None => AbandonStepView::FindMainline(
                                jj::revisions_args("("@ + revset + ") & ::"@ + target.head@),
                            ),
                            Some(hits) => if hits@.len() > 0 {
                                AbandonStepView::Refuse(
                                    mainline(revset, target.label@, hits@[0].commit_id@),
                                )
                            } else {
                                passed_step(selected@, apply)
                            },
                        },
                    }
                },
            }
        },
    }
}

fn ids_of(revisions: &Vec<LaneRev>) -> (res: Vec<String>)
    ensures
        text::views(res@) == commit_ids(revisions@),
{
    broadcast use text::lemma_views_push;

    let ghost all = commit_ids(revisions@);
    let mut out: Vec<String> = Vec::new();
    let mut i: usize = 0;
    assert(text::views(out@) =~= all.take(0));
    while i < revisions.len()
        invariant
            i <= revisions@.len(),
            all == commit_ids(revisions@),
            text::views(out@) == all.take(i as int),
        decreases revisions@.len() - i,
    {
        out.push(copy(revisions[i].commit_id.as_str()));
        i = i + 1;
        assert(all.take(i as int) =~= all.take(i - 1).push(all[i - 1]));
    }
    assert(all.take(i as int) =~= all);
    out
}

fn passed(selected: &Vec<LaneRev>, apply: bool) -> (res: AbandonStep)
    ensures
        res@ == passed_step(selected@, apply),
{
    if apply {
        AbandonStep::Abandon(JjRequest::abandon_commits(&ids_of(selected)))
    } else {
        AbandonStep::Plan
    }
}

/// Decide what to do next about a bulk abandon.
pub fn abandon_step(revset: &str, apply: bool, facts: &AbandonFacts) -> (res: AbandonStep)
    ensures
        res@ == abandon_next(revset@, apply, *facts),
{
    let selected = match &facts.selected {
        None => {
            return AbandonStep::Select(JjRequest::revisions(revset));
        },
        Some(selected) => selected,
    };
    if selected.len() == 0 {
        return AbandonStep::Refuse(
            Error::Engine { message: cat3("revset '", revset, "' selects no commits") },
        );
    }
    let hits = match &facts.working_copy_hits {
        None => {
            return AbandonStep::FindWorkingCopies(
                JjRequest::revisions(
                    cat3("(", revset, ") & (working_copies() | ::working_copies())").as_str(),
                ),
            );
        },
        Some(hits) => hits,
    };
    if hits.len() > 0 {
        return AbandonStep::Refuse(
            Error::Engine {
                message: cat5(
                    "revset '",
                    revset,
                    "' includes commits in a live working copy's chain (for example ",
                    hits[0].commit_id.as_str(),
                    ")\nhint: narrow the revset; working copies are never bulk-abandoned",
                ),
            },
        );
    }
    match &facts.target {
        None => AbandonStep::ResolveTarget,
        Some(None) => passed(selected, apply),
        Some(Some(target)) => match &facts.target_hits {
            None => AbandonStep::FindMainline(
                JjRequest::revisions(cat4("(", revset, ") & ::", target.head.as_str()).as_str()),
            ),
            Some(hits) => {
                if hits.len() > 0 {
                    AbandonStep::Refuse(
                        Error::Engine {
                            message: cat7(
                                "revset '",
                                revset,
                                "' includes commits in ",
                                target.label.as_str(),
                                "'s ancestry (for example ",
                                hits[0].commit_id.as_str(),
                                ")\nhint: abandon only targets stranded work, never the mainline",
                            ),
                        },
                    )
                } else {
                    passed(selected, apply)
                }
            },
        },
    }
}

/// Commits are abandoned only where some are selected, none of them is in a
/// live working copy's chain, and none is in the ancestry of the landing
/// target, if there is one; and then exactly the selected ones are abandoned,
/// in one operation, and only on request.
pub proof fn law_abandon_is_guarded(
    revset: Seq<char>,
    apply: bool,
    facts: AbandonFacts,
    args: Seq<Seq<char>>,
)
    requires
        abandon_next(revset, apply, facts) == AbandonStepView::Abandon(args),
    ensures
        apply,
        facts.selected matches Some(selected) && selected@.len() > 0 && args == jj::abandon_args(
            commit_ids(selected@),
        ),
        facts.working_copy_hits matches Some(hits) && hits@.len() == 0,
        facts.target matches Some(Some(target)) ==> facts.target_hits matches Some(hits)
            && hits@.len() == 0,
{
}

// ---------------------------------------------------------------------------
// Reporting

/// How many commits a report lists.
pub const LISTED: usize = 10;

/// The line on one commit.
pub open spec fn commit_row(revision: LaneRev) -> Seq<char> {
    "  "@ + revision.commit_id@ + "  "@ + (if revision.message@.len() == 0 {
        "(no description)"@
    } else {
        revision.message@
    })
}

/// The lines on the commits that are listed.
pub open spec fn listed_rows(selected: Seq<LaneRev>) -> Seq<Seq<char>> {
    (if selected.len() > LISTED {
        selected.take(LISTED as int)
    } else {
        selected
    }).map_values(|r: LaneRev| commit_row(r))
}

/// The report of a bulk abandon.
pub open spec fn abandon_lines(revset: Seq<char>, selected: Seq<LaneRev>, apply: bool) -> Seq<
    Seq<char>,
> {
    let head = seq![
        (if apply {
            "abandoning"@
        } else {
            "would abandon"@
        }) + " "@ + text::decimal(selected.len()) + " commit(s) selected by '"@ + revset + "'"@,
    ] + listed_rows(selected);
    if selected.len() > LISTED {
        head.push("  ... and "@ + text::decimal((selected.len() - LISTED) as nat) + " more"@)
    } else {
        head
    }
}

/// The lines that close the report.
pub open spec fn abandon_closing(selected: nat, apply: bool) -> Seq<Seq<char>> {
    if apply {
        seq![
            ""@,
            "abandoned "@ + text::decimal(selected)
                + " commit(s) in one operation; jj op undo restores them"@,
        ]
    } else {
        seq![""@, "plan only; rerun with --apply"@]
    }
}

fn render_row(revision: &LaneRev) -> (res: String)
    ensures
        res@ == commit_row(*revision),
{
    let length: usize = char_count(revision.message.as_str());
    let message = if length == 0 {
        "(no description)"
    } else {
        revision.message.as_str()
    };
    cat4("  ", revision.commit_id.as_str(), "  ", message)
}

/// Render the commits that are or would be abandoned, one text per line.
pub fn render_abandon(revset: &str, selected: &Vec<LaneRev>, apply: bool) -> (res: Vec<String>)
    ensures
        text::views(res@) == abandon_lines(revset@, selected@, apply),
{
    broadcast use text::lemma_views_push;

    let verb = if apply {
        "abandoning"
    } else {
        "would abandon"
    };
    let count: usize = selected.len();
    let mut header = cat5(
        verb,
        " ",
        size_number(count).as_str(),
        " commit(s) selected by '",
        revset,
    );
    header.append("'");
    let mut out: Vec<String> = vec![header];
    let ghost head = text::views(out@);
    let ghost rows = listed_rows(selected@);
    let n: usize = if count > LISTED {
        LISTED
    } else {
        count
    };
    let mut i: usize = 0;
    assert(head + rows.take(0) =~= head);
    while i < n
        invariant
            i <= n <= selected@.len(),
            rows == listed_rows(selected@),
            rows.len() == n,
            text::views(out@) == head + rows.take(i as int),
        decreases n - i,
    {
        out.push(render_row(&selected[i]));
        i = i + 1;
        assert(head + rows.take(i as int) =~= (head + rows.take(i - 1)).push(rows[i - 1]));
    }
    assert(rows.take(i as int) =~= rows);
    if count > LISTED {
        out.push(cat3("  ... and ", size_number(count - LISTED).as_str(), " more"));
    }
    out
}

/// The lines after the list.
pub fn render_abandon_closing(selected: usize, apply: bool) -> (res: Vec<String>)
    ensures
        text::views(res@) == abandon_closing(selected as nat, apply),
{
    let last = if apply {
        cat3(
            "abandoned ",
            size_number(selected).as_str(),
            " commit(s) in one operation; jj op undo restores them",
        )
    } else {
        copy("plan only; rerun with --apply")
    };
    let out: Vec<String> = vec![copy(""), last];
    assert(text::views(out@) =~= abandon_closing(selected as nat, apply));
    out
}

/// A request to abandon commits is followed through: first what it selects is
/// asked for, then which of that stands under a working copy, then, where there
/// is a landing target, which of it the target contains; and where nothing
/// stands against it, it goes on.
pub proof fn law_abandon_asks_what_it_selects(revset: Seq<char>, apply: bool, facts: AbandonFacts)
    ensures
        ({
            let step = abandon_next(revset, apply, facts);
            &&& step matches AbandonStepView::Select(args) ==> facts.selected is None && args
                == jj::revisions_args(revset)
            &&& step matches AbandonStepView::FindWorkingCopies(args) ==> facts.working_copy_hits
                is None && args == jj::revisions_args(
                "("@ + revset + ") & (working_copies() | ::working_copies())"@,
            )
            &&& step matches AbandonStepView::FindMainline(args) ==> facts.target_hits is None && (
            facts.target matches Some(Some(target)) && args == jj::revisions_args(
                "("@ + revset + ") & ::"@ + target.head@,
            ))
            &&& step matches AbandonStepView::ResolveTarget ==> facts.target is None
        }),
{
}

/// Abandoning is refused for a reason, and every reason refuses it: nothing is
/// selected, or something selected stands under a working copy, or something
/// selected is in the landing target. The refusal names the first such commit.
pub proof fn law_abandon_is_refused_exactly(revset: Seq<char>, apply: bool, facts: AbandonFacts)
    requires
        facts.selected is Some,
        facts.working_copy_hits is Some,
        facts.target is Some,
        facts.target matches Some(Some(_)) ==> facts.target_hits is Some,
    ensures
        ({
            let step = abandon_next(revset, apply, facts);
            let none = facts.selected->0@.len() == 0;
            let live = facts.working_copy_hits->0@.len() > 0;
            let landed = facts.target->0 is Some && facts.target_hits->0@.len() > 0;
            &&& step is Refuse <==> none || live || landed
            &&& step is Plan <==> !none && !live && !landed && !apply
            &&& step is Abandon <==> !none && !live && !landed && apply
            &&& step matches AbandonStepView::Refuse(e) ==> e.kind == ErrorKind::Engine && e.args
                == seq![
                if none {
                    "revset '"@ + revset + "' selects no commits"@
                } else if live {
                    "revset '"@ + revset
                        + "' includes commits in a live working copy's chain (for example "@
                        + facts.working_copy_hits->0@[0].commit_id@
                        + ")\nhint: narrow the revset; working copies are never bulk-abandoned"@
                } else {
                    "revset '"@ + revset + "' includes commits in "@ + facts.target->0->0.label@
                        + "'s ancestry (for example "@ + facts.target_hits->0@[0].commit_id@
                        + ")\nhint: abandon only targets stranded work, never the mainline"@
                },
            ]
        }),
{
}

/// The report names the first commits that are selected, each in a line of its
/// own, and says how many it leaves out; what it lists and what it leaves out
/// are all that is selected.
pub proof fn law_report_lists_what_is_selected(
    revset: Seq<char>,
    selected: Seq<LaneRev>,
    apply: bool,
    i: int,
)
    ensures
        ({
            let lines = abandon_lines(revset, selected, apply);
            &&& selected.len() <= 10 ==> lines.len() == selected.len() + 1
            &&& selected.len() > 10 ==> lines.len() == 12 && lines[11] == "  ... and "@
                + text::decimal((selected.len() - 10) as nat) + " more"@
            &&& 0 <= i < selected.len() && i < 10 ==> lines[i + 1] == "  "@ + selected[i].commit_id@
                + "  "@ + (if selected[i].message@.len() == 0 {
                "(no description)"@
            } else {
                selected[i].message@
            })
        }),
{
}

} // verus!
