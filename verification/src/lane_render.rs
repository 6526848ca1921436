//! Rendering for lane workflow commands.
//!
//! Lane health renders as weather. A lane fully rebased onto the trunk head is
//! clear sky; drift clouds it over; conflicts are a storm. Divergence, like
//! weather, is nobody's fault and everybody's problem, and the fix is always
//! the same: sync before it storms.

use vstd::prelude::*;

use crate::text::{self, cat3, copy, copy_all, copy_opt, joined, size_number};
use crate::types::{
    self, path_texts, LaneAbandonOutcome, LaneFanoutEntry, LaneGcPlan, LaneLandOutcome,
    LaneLifecycle, LaneListEntry, LaneOpenOutcome, LaneRev, LaneSyncOutcome, WorkspaceName,
};

verus! {

/// Weather classification for a lane's live state.
#[derive(Clone, Copy, Debug, PartialEq, Eq, Structural)]
pub enum LaneWeather {
    /// Synced, conflict-free, in scope.
    Clear,
    /// Behind trunk but rebasing cleanly so far.
    Overcast,
    /// Carrying conflicted commits.
    Storm,
    /// Scope drift: changes outside the declared write-set.
    Fog,
    /// Workspace missing or lane terminal.
    Void,
}

/// The weather of a lane: conflicts weigh more than drift, drift more than
/// being behind.
pub open spec fn weather_of(entry: LaneListEntry) -> LaneWeather {
    if entry.lifecycle != LaneLifecycle::Open || !entry.workspace_exists {
        LaneWeather::Void
    } else if entry.conflicts > 0 {
        LaneWeather::Storm
    } else if entry.unscoped@.len() > 0 {
        LaneWeather::Fog
    } else if entry.synced {
        LaneWeather::Clear
    } else {
        LaneWeather::Overcast
    }
}

impl LaneWeather {
    /// The weather of a lane.
    pub fn of(entry: &LaneListEntry) -> (res: LaneWeather)
        ensures
            res == weather_of(*entry),
    {
        if entry.lifecycle != LaneLifecycle::Open || !entry.workspace_exists {
            LaneWeather::Void
        } else if entry.conflicts > 0 {
            LaneWeather::Storm
        } else if entry.unscoped.len() > 0 {
            LaneWeather::Fog
        } else if entry.synced {
            LaneWeather::Clear
        } else {
            LaneWeather::Overcast
        }
    }

    /// The sign of each weather.
    pub open spec fn glyph_text(self) -> Seq<char> {
        match self {
            LaneWeather::Clear => "\u{2600}"@,
            LaneWeather::Overcast => "\u{26c5}"@,
            LaneWeather::Storm => "\u{26c8}"@,
            LaneWeather::Fog => "\u{1f32b}"@,
            LaneWeather::Void => "\u{00b7}"@,
        }
    }

    /// The name of each weather.
    pub open spec fn label_text(self) -> Seq<char> {
        match self {
            LaneWeather::Clear => "clear"@,
            LaneWeather::Overcast => "overcast"@,
            LaneWeather::Storm => "storm"@,
            LaneWeather::Fog => "fog"@,
            LaneWeather::Void => "void"@,
        }
    }

    /// The sign shown in the lane list.
    pub fn glyph(self) -> (res: &'static str)
        ensures
            res@ == self.glyph_text(),
    {
        match self {
            LaneWeather::Clear => "\u{2600}",
            LaneWeather::Overcast => "\u{26c5}",
            LaneWeather::Storm => "\u{26c8}",
            LaneWeather::Fog => "\u{1f32b}",
            LaneWeather::Void => "\u{00b7}",
        }
    }

    /// The name used in machine output.
    pub fn label(self) -> (res: &'static str)
        ensures
            res@ == self.label_text(),
    {
        match self {
            LaneWeather::Clear => "clear",
            LaneWeather::Overcast => "overcast",
            LaneWeather::Storm => "storm",
            LaneWeather::Fog => "fog",
            LaneWeather::Void => "void",
        }
    }
}

/// A clear sky means that the lane could land: open, there, synced, without
/// conflicts and in scope.
pub proof fn law_clear_weather(entry: LaneListEntry)
    ensures
        weather_of(entry) == LaneWeather::Clear <==> (entry.lifecycle == LaneLifecycle::Open
            && entry.workspace_exists && entry.synced && entry.conflicts == 0
            && entry.unscoped@.len() == 0),
{
}

/// Paths with commas between them.
pub open spec fn path_list(paths: Seq<types::LanePath>) -> Seq<char> {
    text::join(types::path_views(paths), ", "@)
}

fn render_paths(paths: &Vec<types::LanePath>) -> (res: String)
    ensures
        res@ == path_list(paths@),
{
    let texts = path_texts(paths);
    joined(&texts, ", ")
}

// ---------------------------------------------------------------------------
// Open

/// The report of `lane open`.
pub open spec fn open_text(outcome: LaneOpenOutcome) -> Seq<char> {
    "opened lane '"@ + outcome.name@ + "'"@ + (if outcome.sparse {
        " (sparse)"@
    } else {
        ""@
    }) + "\n  base: change "@ + outcome.base.change_id@ + "  commit "@ + outcome.base.commit_id@
        + "  "@ + outcome.base.message@ + "\n  write-set: "@ + path_list(outcome.paths@)
        + "\n  next: cd "@ + outcome.path@ + "\n"@
}

/// Render the outcome of `lane open`.
pub fn render_lane_open_outcome(outcome: &LaneOpenOutcome) -> (res: String)
    ensures
        res@ == open_text(*outcome),
{
    let mut out = cat3("opened lane '", outcome.name.as_str(), "'");
    if outcome.sparse {
        out.append(" (sparse)");
    } else {
        out.append("");
    }
    out.append("\n  base: change ");
    out.append(outcome.base.change_id.as_str());
    out.append("  commit ");
    out.append(outcome.base.commit_id.as_str());
    out.append("  ");
    out.append(outcome.base.message.as_str());
    out.append("\n  write-set: ");
    out.append(render_paths(&outcome.paths).as_str());
    out.append("\n  next: cd ");
    out.append(outcome.path.as_str());
    out.append("\n");
    out
}

// ---------------------------------------------------------------------------
// List

/// What the list says of a lane, besides its weather, name and paths.
pub open spec fn entry_facts(entry: LaneListEntry) -> Seq<Seq<char>> {
    match entry.lifecycle {
        LaneLifecycle::Open => if !entry.workspace_exists {
            seq!["workspace missing"@]
        } else {
            let sync = if entry.synced {
                "synced"@
            } else {
                "behind "@ + text::decimal(entry.behind as nat)
            };
            let base = seq![sync, "ahead "@ + text::decimal(entry.ahead as nat)];
            let storm = if entry.conflicts > 0 {
                base.push("conflicts "@ + text::decimal(entry.conflicts as nat))
            } else {
                base
            };
            if entry.unscoped@.len() > 0 {
                storm.push("unscoped "@ + text::decimal(entry.unscoped@.len()))
            } else {
                storm
            }
        },
        LaneLifecycle::Closed => seq!["closed"@],
        LaneLifecycle::Abandoned => seq!["abandoned"@],
    }
}

/// One line per path.
pub open spec fn path_rows(paths: Seq<Seq<char>>, label: Seq<char>) -> Seq<char>
    decreases paths.len(),
{
    if paths.len() == 0 {
        Seq::empty()
    } else {
        path_rows(paths.drop_last(), label) + label + paths.last() + "\n"@
    }
}

/// The row of one lane.
pub open spec fn entry_row(entry: LaneListEntry) -> Seq<char> {
    weather_of(entry).glyph_text() + " "@ + entry.name@ + "  ["@ + path_list(entry.paths@) + "]  "@
        + text::join(entry_facts(entry), ", "@) + "\n"@ + path_rows(
        text::views(entry.unscoped@),
        "    unscoped: "@,
    )
}

/// The rows of some lanes.
pub open spec fn entry_rows(entries: Seq<LaneListEntry>) -> Seq<char>
    decreases entries.len(),
{
    if entries.len() == 0 {
        Seq::empty()
    } else {
        entry_rows(entries.drop_last()) + entry_row(entries.last())
    }
}

/// The lane list.
pub open spec fn list_text(entries: Seq<LaneListEntry>) -> Seq<char> {
    if entries.len() == 0 {
        "no lanes registered\nhint: navi lane open NAME --path PATH\n"@
    } else {
        entry_rows(entries)
    }
}

fn render_facts(entry: &LaneListEntry) -> (res: Vec<String>)
    ensures
        text::views(res@) == entry_facts(*entry),
{
    broadcast use text::lemma_views_push;

    let mut facts: Vec<String> = Vec::new();
    proof {
        text::lemma_views_empty(facts@);
    }
    match entry.lifecycle {
        LaneLifecycle::Open => {
            if !entry.workspace_exists {
                facts.push(copy("workspace missing"));
            } else {
                if entry.synced {
                    facts.push(copy("synced"));
                } else {
                    facts.push(text::cat2("behind ", size_number(entry.behind).as_str()));
                }
                facts.push(text::cat2("ahead ", size_number(entry.ahead).as_str()));
                if entry.conflicts > 0 {
                    facts.push(text::cat2("conflicts ", size_number(entry.conflicts).as_str()));
                }
                if entry.unscoped.len() > 0 {
                    facts.push(text::cat2("unscoped ", size_number(entry.unscoped.len()).as_str()));
                }
            }
        },
        LaneLifecycle::Closed => {
            facts.push(copy("closed"));
        },
        LaneLifecycle::Abandoned => {
            facts.push(copy("abandoned"));
        },
    }
    assert(text::views(facts@) =~= entry_facts(*entry));
    facts
}

fn append_rows(out: &mut String, paths: &Vec<String>, label: &str)
    ensures
        final(out)@ == old(out)@ + path_rows(text::views(paths@), label@),
{
    let ghost before = out@;
    let ghost all = text::views(paths@);
    let mut i: usize = 0;
    assert(all.take(0) =~= Seq::<Seq<char>>::empty());
    assert(before + path_rows(all.take(0), label@) =~= before);
    while i < paths.len()
        invariant
            i <= paths@.len(),
            all == text::views(paths@),
            out@ == before + path_rows(all.take(i as int), label@),
        decreases paths@.len() - i,
    {
        out.append(label);
        out.append(paths[i].as_str());
        out.append("\n");
        proof {
            assert(all.take(i + 1).drop_last() =~= all.take(i as int));
            assert(all.take(i + 1).last() == paths@[i as int]@);
            let front = path_rows(all.take(i as int), label@);
            assert(before + front + label@ + paths@[i as int]@ + "\n"@ =~= before + (front + label@
                + paths@[i as int]@ + "\n"@));
        }
        i = i + 1;
    }
    assert(all.take(i as int) =~= all);
}

fn render_row(entry: &LaneListEntry) -> (res: String)
    ensures
        res@ == entry_row(*entry),
{
    let weather = LaneWeather::of(entry);
    let facts = render_facts(entry);
    let mut out = cat3(weather.glyph(), " ", entry.name.as_str());
    out.append("  [");
    out.append(render_paths(&entry.paths).as_str());
    out.append("]  ");
    out.append(joined(&facts, ", ").as_str());
    out.append("\n");
    append_rows(&mut out, &entry.unscoped, "    unscoped: ");
    out
}

/// Render the lane table for `lane list`.
pub fn render_lane_list(entries: &Vec<LaneListEntry>) -> (res: String)
    ensures
        res@ == list_text(entries@),
{
    if entries.len() == 0 {
        return copy("no lanes registered\nhint: navi lane open NAME --path PATH\n");
    }
    let mut out = String::new();
    let mut i: usize = 0;
    assert(entries@.take(0) =~= Seq::<LaneListEntry>::empty());
    while i < entries.len()
        invariant
            i <= entries@.len(),
            out@ == entry_rows(entries@.take(i as int)),
        decreases entries@.len() - i,
    {
        out.append(render_row(&entries[i]).as_str());
        i = i + 1;
        assert(entries@.take(i as int).drop_last() =~= entries@.take(i - 1));
    }
    assert(entries@.take(i as int) =~= entries@);
    out
}

/// One lane in machine output.
#[derive(Debug, PartialEq, Eq)]
pub struct LaneJsonEntry {
    pub name: String,
    pub lifecycle: String,
    pub weather: String,
    pub paths: Vec<String>,
    pub workspace_exists: bool,
    pub synced: bool,
    pub ahead: usize,
    pub behind: usize,
    pub conflicts: usize,
    pub unscoped: Vec<String>,
    pub last_land: Option<String>,
}

/// The machine output of a lane says what its row says.
pub open spec fn json_matches(json: LaneJsonEntry, entry: LaneListEntry) -> bool {
    &&& json.name@ == entry.name@
    &&& json.lifecycle@ == entry.lifecycle.label_text()
    &&& json.weather@ == weather_of(entry).label_text()
    &&& text::views(json.paths@) == types::path_views(entry.paths@)
    &&& json.workspace_exists == entry.workspace_exists
    &&& json.synced == entry.synced
    &&& json.ahead == entry.ahead
    &&& json.behind == entry.behind
    &&& json.conflicts == entry.conflicts
    &&& text::views(json.unscoped@) == text::views(entry.unscoped@)
    &&& text::opt_view(json.last_land) == text::opt_view(entry.last_land)
}

/// The lanes of `lane list` for machine output.
pub fn lane_list_json(entries: &Vec<LaneListEntry>) -> (res: Vec<LaneJsonEntry>)
    ensures
        res@.len() == entries@.len(),
        forall|i: int| 0 <= i < res@.len() ==> json_matches(#[trigger] res@[i], entries@[i]),
{
    let mut out: Vec<LaneJsonEntry> = Vec::new();
    let mut i: usize = 0;
    while i < entries.len()
        invariant
            i <= entries@.len(),
            out@.len() == i,
            forall|k: int| 0 <= k < i ==> json_matches(#[trigger] out@[k], entries@[k]),
        decreases entries@.len() - i,
    {
        let entry = &entries[i];
        out.push(
            LaneJsonEntry {
                name: copy(entry.name.as_str()),
                lifecycle: copy(entry.lifecycle.as_str()),
                weather: copy(LaneWeather::of(entry).label()),
                paths: path_texts(&entry.paths),
                workspace_exists: entry.workspace_exists,
                synced: entry.synced,
                ahead: entry.ahead,
                behind: entry.behind,
                conflicts: entry.conflicts,
                unscoped: copy_all(&entry.unscoped),
                last_land: copy_opt(&entry.last_land),
            },
        );
        i = i + 1;
    }
    out
}

// ---------------------------------------------------------------------------
// Sync

/// What the report says of a synced lane.
pub open spec fn sync_facts(outcome: LaneSyncOutcome) -> Seq<Seq<char>> {
    let stale = if outcome.recovered_stale {
        seq!["recovered stale working copy"@]
    } else {
        Seq::empty()
    };
    let moved = stale.push(
        if outcome.rebased {
            "rebased onto trunk head"@
        } else {
            "already synced"@
        },
    );
    if outcome.dropped@.len() > 0 {
        moved.push(
            "dropped "@ + text::decimal(outcome.dropped@.len()) + " unscoped path(s)"@,
        )
    } else {
        moved
    }
}

/// One line per conflict.
pub open spec fn conflict_rows(conflicts: Seq<LaneRev>) -> Seq<char>
    decreases conflicts.len(),
{
    if conflicts.len() == 0 {
        Seq::empty()
    } else {
        conflict_rows(conflicts.drop_last()) + "    conflict: change "@
            + conflicts.last().change_id@ + "  "@ + conflicts.last().message@ + "\n"@
    }
}

/// The row of one synced lane.
pub open spec fn sync_row(outcome: LaneSyncOutcome) -> Seq<char> {
    if !outcome.workspace_exists {
        "\u{00b7} "@ + outcome.name@ + "  workspace missing (gc?)\n"@
    } else {
        (if outcome.conflicts@.len() == 0 {
            "\u{2600}"@
        } else {
            "\u{26c8}"@
        }) + " "@ + outcome.name@ + "  "@ + text::join(sync_facts(outcome), ", "@) + "\n"@
            + conflict_rows(outcome.conflicts@) + path_rows(
            text::views(outcome.dropped@),
            "    dropped: "@,
        )
    }
}

/// The rows of some synced lanes.
pub open spec fn sync_rows(outcomes: Seq<LaneSyncOutcome>) -> Seq<char>
    decreases outcomes.len(),
{
    if outcomes.len() == 0 {
        Seq::empty()
    } else {
        sync_rows(outcomes.drop_last()) + sync_row(outcomes.last())
    }
}

/// The report of `lane sync`.
pub open spec fn sync_text(outcomes: Seq<LaneSyncOutcome>) -> Seq<char> {
    if outcomes.len() == 0 {
        "no open lanes to sync\n"@
    } else {
        sync_rows(outcomes)
    }
}

fn render_sync_facts(outcome: &LaneSyncOutcome) -> (res: Vec<String>)
    ensures
        text::views(res@) == sync_facts(*outcome),
{
    broadcast use text::lemma_views_push;

    let mut facts: Vec<String> = Vec::new();
    proof {
        text::lemma_views_empty(facts@);
    }
    if outcome.recovered_stale {
        facts.push(copy("recovered stale working copy"));
    }
    if outcome.rebased {
        facts.push(copy("rebased onto trunk head"));
    } else {
        facts.push(copy("already synced"));
    }
    if outcome.dropped.len() > 0 {
        facts.push(cat3("dropped ", size_number(outcome.dropped.len()).as_str(), " unscoped path(s)"));
    }
    assert(text::views(facts@) =~= sync_facts(*outcome));
    facts
}

fn append_conflicts(out: &mut String, conflicts: &Vec<LaneRev>)
    ensures
        final(out)@ == old(out)@ + conflict_rows(conflicts@),
{
    let ghost before = out@;
    let mut i: usize = 0;
    assert(conflicts@.take(0) =~= Seq::<LaneRev>::empty());
    assert(before + conflict_rows(conflicts@.take(0)) =~= before);
    while i < conflicts.len()
        invariant
            i <= conflicts@.len(),
            out@ == before + conflict_rows(conflicts@.take(i as int)),
        decreases conflicts@.len() - i,
    {
        let rev = &conflicts[i];
        out.append("    conflict: change ");
        out.append(rev.change_id.as_str());
        out.append("  ");
        out.append(rev.message.as_str());
        out.append("\n");
        proof {
            let front = conflict_rows(conflicts@.take(i as int));
            assert(conflicts@.take(i + 1).drop_last() =~= conflicts@.take(i as int));
            assert(before + front + "    conflict: change "@ + rev.change_id@ + "  "@ + rev.message@
                + "\n"@ =~= before + (front + "    conflict: change "@ + rev.change_id@ + "  "@
                + rev.message@ + "\n"@));
        }
        i = i + 1;
    }
    assert(conflicts@.take(i as int) =~= conflicts@);
}

fn render_sync_row(outcome: &LaneSyncOutcome) -> (res: String)
    ensures
        res@ == sync_row(*outcome),
{
    if !outcome.workspace_exists {
        return cat3("\u{00b7} ", outcome.name.as_str(), "  workspace missing (gc?)\n");
    }
    let facts = render_sync_facts(outcome);
    let mut out = if outcome.conflicts.len() == 0 {
        copy("\u{2600}")
    } else {
        copy("\u{26c8}")
    };
    out.append(" ");
    out.append(outcome.name.as_str());
    out.append("  ");
    out.append(joined(&facts, ", ").as_str());
    out.append("\n");
    append_conflicts(&mut out, &outcome.conflicts);
    append_rows(&mut out, &outcome.dropped, "    dropped: ");
    out
}

/// Render the outcomes of `lane sync`.
pub fn render_lane_sync_outcomes(outcomes: &Vec<LaneSyncOutcome>) -> (res: String)
    ensures
        res@ == sync_text(outcomes@),
{
    if outcomes.len() == 0 {
        return copy("no open lanes to sync\n");
    }
    let mut out = String::new();
    let mut i: usize = 0;
    assert(outcomes@.take(0) =~= Seq::<LaneSyncOutcome>::empty());
    while i < outcomes.len()
        invariant
            i <= outcomes@.len(),
            out@ == sync_rows(outcomes@.take(i as int)),
        decreases outcomes@.len() - i,
    {
        out.append(render_sync_row(&outcomes[i]).as_str());
        i = i + 1;
        assert(outcomes@.take(i as int).drop_last() =~= outcomes@.take(i - 1));
    }
    assert(outcomes@.take(i as int) =~= outcomes@);
    out
}

// ---------------------------------------------------------------------------
// Land

/// What a landing did to one peer.
pub open spec fn ripple_row(entry: LaneFanoutEntry) -> Seq<char> {
    match entry.error {
        Some(error) => "    \u{26a0} "@ + entry.name@ + "  "@ + error@ + "\n"@,
        None => if !entry.rebased {
            "    \u{2600} "@ + entry.name@ + "  already current\n"@
        } else if entry.conflicts > 0 {
            "    \u{26c8} "@ + entry.name@ + "  rebased, "@ + text::decimal(entry.conflicts as nat)
                + " conflict(s) \u{2014} theirs to resolve, today not merge-day\n"@
        } else {
            "    \u{2600} "@ + entry.name@ + "  rebased clean\n"@
        },
    }
}

/// What a landing did to its peers.
pub open spec fn ripple_rows(entries: Seq<LaneFanoutEntry>) -> Seq<char>
    decreases entries.len(),
{
    if entries.len() == 0 {
        Seq::empty()
    } else {
        ripple_rows(entries.drop_last()) + ripple_row(entries.last())
    }
}

/// The report of `lane land`.
pub open spec fn land_text(outcome: LaneLandOutcome) -> Seq<char> {
    let head = "landed lane '"@ + outcome.name@ + "': "@ + text::decimal(
        outcome.landed_changes as nat,
    ) + " change(s) fast-forwarded onto trunk\n  head: change "@ + outcome.landed.change_id@
        + "  commit "@ + outcome.landed.commit_id@ + "  "@ + outcome.landed.message@ + "\n"@;
    let gate = match outcome.gate {
        Some(command) => head + "  gate: passed ("@ + command@ + ")\n"@,
        None => head,
    };
    let ripple = if outcome.fanout@.len() == 0 {
        gate + "  ripple: no other open lanes\n"@
    } else {
        gate + "  ripple:\n"@ + ripple_rows(outcome.fanout@)
    };
    if outcome.closed {
        ripple + "  lane closed and retired\n"@
    } else {
        ripple
    }
}

fn render_ripple_row(entry: &LaneFanoutEntry) -> (res: String)
    ensures
        res@ == ripple_row(*entry),
{
    let name = entry.name.as_str();
    match &entry.error {
        Some(error) => {
            let mut out = cat3("    \u{26a0} ", name, "  ");
            out.append(error.as_str());
            out.append("\n");
            out
        },
        None => {
            if !entry.rebased {
                cat3("    \u{2600} ", name, "  already current\n")
            } else if entry.conflicts > 0 {
                let mut out = cat3("    \u{26c8} ", name, "  rebased, ");
                out.append(size_number(entry.conflicts).as_str());
                out.append(" conflict(s) \u{2014} theirs to resolve, today not merge-day\n");
                out
            } else {
                cat3("    \u{2600} ", name, "  rebased clean\n")
            }
        },
    }
}

fn append_ripple(out: &mut String, entries: &Vec<LaneFanoutEntry>)
    ensures
        final(out)@ == old(out)@ + ripple_rows(entries@),
{
    let ghost before = out@;
    let mut i: usize = 0;
    assert(entries@.take(0) =~= Seq::<LaneFanoutEntry>::empty());
    assert(before + ripple_rows(entries@.take(0)) =~= before);
    while i < entries.len()
        invariant
            i <= entries@.len(),
            out@ == before + ripple_rows(entries@.take(i as int)),
        decreases entries@.len() - i,
    {
        out.append(render_ripple_row(&entries[i]).as_str());
        proof {
            let front = ripple_rows(entries@.take(i as int));
            assert(entries@.take(i + 1).drop_last() =~= entries@.take(i as int));
            assert(before + front + ripple_row(entries@[i as int]) =~= before + (front
                + ripple_row(entries@[i as int])));
        }
        i = i + 1;
    }
    assert(entries@.take(i as int) =~= entries@);
}

/// Render the outcome of `lane land`.
pub fn render_lane_land_outcome(outcome: &LaneLandOutcome) -> (res: String)
    ensures
        res@ == land_text(*outcome),
{
    let mut out = cat3("landed lane '", outcome.name.as_str(), "': ");
    out.append(size_number(outcome.landed_changes).as_str());
    out.append(" change(s) fast-forwarded onto trunk\n  head: change ");
    out.append(outcome.landed.change_id.as_str());
    out.append("  commit ");
    out.append(outcome.landed.commit_id.as_str());
    out.append("  ");
    out.append(outcome.landed.message.as_str());
    out.append("\n");
    if let Some(command) = &outcome.gate {
        out.append("  gate: passed (");
        out.append(command.as_str());
        out.append(")\n");
    }
    if outcome.fanout.len() == 0 {
        out.append("  ripple: no other open lanes\n");
    } else {
        out.append("  ripple:\n");
        append_ripple(&mut out, &outcome.fanout);
    }
    if outcome.closed {
        out.append("  lane closed and retired\n");
    }
    out
}

// ---------------------------------------------------------------------------
// Abandon and collect

/// The report of `lane abandon`.
pub open spec fn abandon_text(outcome: LaneAbandonOutcome) -> Seq<char> {
    let head = "abandoned lane '"@ + outcome.name@ + "'\n"@;
    let archive = match outcome.archive {
        Some(path) => head + "  archived diff: "@ + path@ + "\n"@,
        None => head,
    };
    match outcome.removed_directory {
        Some(path) => archive + "  removed: "@ + path@ + "\n"@,
        None => archive,
    }
}

/// Render the outcome of `lane abandon`.
pub fn render_lane_abandon_outcome(outcome: &LaneAbandonOutcome) -> (res: String)
    ensures
        res@ == abandon_text(*outcome),
{
    let mut out = cat3("abandoned lane '", outcome.name.as_str(), "'\n");
    if let Some(path) = &outcome.archive {
        out.append("  archived diff: ");
        out.append(path.as_str());
        out.append("\n");
    }
    if let Some(path) = &outcome.removed_directory {
        out.append("  removed: ");
        out.append(path.as_str());
        out.append("\n");
    }
    out
}

/// One line per name.
pub open spec fn name_rows(names: Seq<WorkspaceName>, before: Seq<char>, after: Seq<char>) -> Seq<
    char,
>
    decreases names.len(),
{
    if names.len() == 0 {
        Seq::empty()
    } else {
        name_rows(names.drop_last(), before, after) + before + names.last()@ + after
    }
}

/// The report of `lane gc`.
pub open spec fn gc_text(plan: LaneGcPlan, applied: bool) -> Seq<char> {
    if plan.ghost_workspaces@.len() == 0 && plan.orphaned_lanes@.len() == 0
        && plan.prunable_lanes@.len() == 0 {
        "nothing to collect: no ghost workspaces, no orphaned lanes\n"@
    } else {
        let rows = name_rows(
            plan.ghost_workspaces@,
            if applied {
                "forgot ghost workspace '"@
            } else {
                "would forget ghost workspace '"@
            },
            "' (directory missing)\n"@,
        ) + name_rows(
            plan.orphaned_lanes@,
            if applied {
                "abandoned orphaned lane '"@
            } else {
                "would abandon orphaned lane '"@
            },
            "' (no jj workspace)\n"@,
        ) + name_rows(
            plan.prunable_lanes@,
            if applied {
                "pruned retired lane '"@
            } else {
                "would prune retired lane '"@
            },
            "'\n"@,
        );
        if applied {
            rows
        } else {
            rows + "plan only; rerun with --apply\n"@
        }
    }
}

fn append_names(out: &mut String, names: &Vec<WorkspaceName>, before: &str, after: &str)
    ensures
        final(out)@ == old(out)@ + name_rows(names@, before@, after@),
{
    let ghost start = out@;
    let mut i: usize = 0;
    assert(names@.take(0) =~= Seq::<WorkspaceName>::empty());
    assert(start + name_rows(names@.take(0), before@, after@) =~= start);
    while i < names.len()
        invariant
            i <= names@.len(),
            out@ == start + name_rows(names@.take(i as int), before@, after@),
        decreases names@.len() - i,
    {
        out.append(before);
        out.append(names[i].as_str());
        out.append(after);
        proof {
            let front = name_rows(names@.take(i as int), before@, after@);
            assert(names@.take(i + 1).drop_last() =~= names@.take(i as int));
            assert(start + front + before@ + names@[i as int]@ + after@ =~= start + (front + before@
                + names@[i as int]@ + after@));
        }
        i = i + 1;
    }
    assert(names@.take(i as int) =~= names@);
}

/// Render a gc plan, optionally after it was applied.
pub fn render_lane_gc(plan: &LaneGcPlan, applied: bool) -> (res: String)
    ensures
        res@ == gc_text(*plan, applied),
{
    if plan.is_empty() {
        return copy("nothing to collect: no ghost workspaces, no orphaned lanes\n");
    }
    let mut out = String::new();
    let ghost_label = if applied {
        "forgot ghost workspace '"
    } else {
        "would forget ghost workspace '"
    };
    append_names(&mut out, &plan.ghost_workspaces, ghost_label, "' (directory missing)\n");
    proof {
        let rows = name_rows(plan.ghost_workspaces@, ghost_label@, "' (directory missing)\n"@);
        assert(Seq::<char>::empty() + rows =~= rows);
    }
    let orphan_label = if applied {
        "abandoned orphaned lane '"
    } else {
        "would abandon orphaned lane '"
    };
    append_names(&mut out, &plan.orphaned_lanes, orphan_label, "' (no jj workspace)\n");
    let prune_label = if applied {
        "pruned retired lane '"
    } else {
        "would prune retired lane '"
    };
    append_names(&mut out, &plan.prunable_lanes, prune_label, "'\n");
    if !applied {
        out.append("plan only; rerun with --apply\n");
    }
    out
}

/// What each weather means: no weather where the lane is not open or its
/// workspace is gone; else a storm exactly where commits are conflicted, fog
/// exactly where none is but some path is out of scope, overcast exactly where
/// neither is the case and the lane is behind.
pub proof fn law_weather_says_what_is_wrong(entry: LaneListEntry)
    ensures
        ({
            let live = entry.lifecycle == LaneLifecycle::Open && entry.workspace_exists;
            let conflicted = entry.conflicts > 0;
            let drifted = entry.unscoped@.len() > 0;
            &&& weather_of(entry) == LaneWeather::Void <==> !live
            &&& weather_of(entry) == LaneWeather::Storm <==> live && conflicted
            &&& weather_of(entry) == LaneWeather::Fog <==> live && !conflicted && drifted
            &&& weather_of(entry) == LaneWeather::Overcast <==> live && !conflicted && !drifted
                && !entry.synced
        }),
{
}

/// Each weather is shown by one sign and one name, and no two share either.
pub proof fn law_weather_is_told_apart(a: LaneWeather, b: LaneWeather)
    ensures
        a.glyph_text().len() == 1,
        a.glyph_text() == b.glyph_text() <==> a == b,
        a.label_text() == b.label_text() <==> a == b,
        LaneWeather::Clear.glyph_text()[0] == '\u{2600}',
        LaneWeather::Overcast.glyph_text()[0] == '\u{26c5}',
        LaneWeather::Storm.glyph_text()[0] == '\u{26c8}',
        LaneWeather::Fog.glyph_text()[0] == '\u{1f32b}',
        LaneWeather::Void.glyph_text()[0] == '\u{00b7}',
        LaneWeather::Clear.label_text() =~= seq!['c', 'l', 'e', 'a', 'r'],
        LaneWeather::Overcast.label_text() =~= seq!['o', 'v', 'e', 'r', 'c', 'a', 's', 't'],
        LaneWeather::Storm.label_text() =~= seq!['s', 't', 'o', 'r', 'm'],
        LaneWeather::Fog.label_text() =~= seq!['f', 'o', 'g'],
        LaneWeather::Void.label_text() =~= seq!['v', 'o', 'i', 'd'],
{
    reveal_strlit("\u{2600}");
    reveal_strlit("\u{26c5}");
    reveal_strlit("\u{26c8}");
    reveal_strlit("\u{1f32b}");
    reveal_strlit("\u{00b7}");
    reveal_strlit("clear");
    reveal_strlit("overcast");
    reveal_strlit("storm");
    reveal_strlit("fog");
    reveal_strlit("void");
    assert("\u{2600}"@[0] == '\u{2600}' && "\u{26c5}"@[0] == '\u{26c5}');
    assert("\u{26c8}"@[0] == '\u{26c8}' && "\u{1f32b}"@[0] == '\u{1f32b}');
    assert("\u{00b7}"@[0] == '\u{00b7}');
    assert("fog"@.len() == 3 && "void"@.len() == 4 && "overcast"@.len() == 8);
    assert("clear"@[0] == 'c' && "storm"@[0] == 's');
}

/// The list says of a lane what was found of it: of one that is there whether it
/// is synced or by how much it is behind, then how far it is ahead, then its
/// conflicts and what is out of scope, where there are any.
pub proof fn law_row_says_what_was_found(entry: LaneListEntry)
    ensures
        ({
            let facts = entry_facts(entry);
            let live = entry.lifecycle == LaneLifecycle::Open && entry.workspace_exists;
            let storm = if entry.conflicts > 0 { 1int } else { 0 };
            let fog = if entry.unscoped@.len() > 0 { 1int } else { 0 };
            &&& entry.lifecycle == LaneLifecycle::Closed ==> facts == seq!["closed"@]
            &&& entry.lifecycle == LaneLifecycle::Abandoned ==> facts == seq!["abandoned"@]
            &&& entry.lifecycle == LaneLifecycle::Open && !entry.workspace_exists ==> facts
                == seq!["workspace missing"@]
            &&& live ==> facts.len() == 2 + storm + fog
            &&& live && entry.synced ==> facts[0] == "synced"@
            &&& live && !entry.synced ==> facts[0] == "behind "@ + text::decimal(
                entry.behind as nat,
            )
            &&& live ==> facts[1] == "ahead "@ + text::decimal(entry.ahead as nat)
            &&& live && entry.conflicts > 0 ==> facts[2] == "conflicts "@ + text::decimal(
                entry.conflicts as nat,
            )
            &&& live && entry.unscoped@.len() > 0 ==> facts[2 + storm] == "unscoped "@
                + text::decimal(entry.unscoped@.len())
        }),
{
}

/// The list has a row for every lane, in their order.
pub proof fn law_rows_follow_each_other(some: Seq<LaneListEntry>, more: Seq<LaneListEntry>)
    ensures
        entry_rows(some + more) == entry_rows(some) + entry_rows(more),
        forall|e: LaneListEntry| #[trigger] entry_rows(seq![e]) == entry_row(e),
    decreases more.len(),
{
    reveal_with_fuel(entry_rows, 2);
    if more.len() == 0 {
        assert(some + more =~= some);
        assert(entry_rows(some + more) =~= entry_rows(some) + entry_rows(more));
    } else {
        law_rows_follow_each_other(some, more.drop_last());
        assert((some + more).drop_last() =~= some + more.drop_last());
        assert(entry_rows(some + more) =~= entry_rows(some) + entry_rows(more));
    }
    assert forall|e: LaneListEntry| #[trigger] entry_rows(seq![e]) == entry_row(e) by {
        assert(seq![e].drop_last() =~= Seq::<LaneListEntry>::empty());
        assert(entry_rows(seq![e]) =~= entry_row(e));
    }
}

/// Every path has a line of its own.
pub proof fn law_path_rows_follow_each_other(
    some: Seq<Seq<char>>,
    more: Seq<Seq<char>>,
    label: Seq<char>,
)
    ensures
        path_rows(some + more, label) == path_rows(some, label) + path_rows(more, label),
        forall|p: Seq<char>| #[trigger] path_rows(seq![p], label) == label + p + "\n"@,
    decreases more.len(),
{
    reveal_with_fuel(path_rows, 2);
    if more.len() == 0 {
        assert(some + more =~= some);
        assert(path_rows(some + more, label) =~= path_rows(some, label) + path_rows(more, label));
    } else {
        law_path_rows_follow_each_other(some, more.drop_last(), label);
        assert((some + more).drop_last() =~= some + more.drop_last());
        assert(path_rows(some + more, label) =~= path_rows(some, label) + path_rows(more, label));
    }
    assert forall|p: Seq<char>| #[trigger] path_rows(seq![p], label) == label + p + "\n"@ by {
        assert(seq![p].drop_last() =~= Seq::<Seq<char>>::empty());
        assert(path_rows(seq![p], label) =~= label + p + "\n"@);
    }
}

/// The report of a sync has a row for every lane, in their order.
pub proof fn law_sync_rows_follow_each_other(
    some: Seq<LaneSyncOutcome>,
    more: Seq<LaneSyncOutcome>,
)
    ensures
        sync_rows(some + more) == sync_rows(some) + sync_rows(more),
        forall|o: LaneSyncOutcome| #[trigger] sync_rows(seq![o]) == sync_row(o),
    decreases more.len(),
{
    reveal_with_fuel(sync_rows, 2);
    if more.len() == 0 {
        assert(some + more =~= some);
        assert(sync_rows(some + more) =~= sync_rows(some) + sync_rows(more));
    } else {
        law_sync_rows_follow_each_other(some, more.drop_last());
        assert((some + more).drop_last() =~= some + more.drop_last());
        assert(sync_rows(some + more) =~= sync_rows(some) + sync_rows(more));
    }
    assert forall|o: LaneSyncOutcome| #[trigger] sync_rows(seq![o]) == sync_row(o) by {
        assert(seq![o].drop_last() =~= Seq::<LaneSyncOutcome>::empty());
        assert(sync_rows(seq![o]) =~= sync_row(o));
    }
}

/// A sync row says first whether the lane came out clean: by the sun where no
/// commit is conflicted, by the storm where one is, and by neither where the
/// workspace is gone.
pub proof fn law_sync_row_shows_conflicts(outcome: LaneSyncOutcome)
    ensures
        sync_row(outcome).len() > 0,
        !outcome.workspace_exists <==> sync_row(outcome)[0] == '\u{00b7}',
        outcome.workspace_exists && outcome.conflicts@.len() == 0 <==> sync_row(outcome)[0]
            == '\u{2600}',
        outcome.workspace_exists && outcome.conflicts@.len() > 0 <==> sync_row(outcome)[0]
            == '\u{26c8}',
        ({
            let facts = sync_facts(outcome);
            let at = if outcome.recovered_stale { 1int } else { 0 };
            let dropped = if outcome.dropped@.len() > 0 { 1int } else { 0 };
            &&& facts.len() == at + 1 + dropped
            &&& outcome.recovered_stale ==> facts[0] == "recovered stale working copy"@
            &&& outcome.rebased ==> facts[at] == "rebased onto trunk head"@
            &&& !outcome.rebased ==> facts[at] == "already synced"@
            &&& dropped == 1 ==> facts[at + 1] == "dropped "@ + text::decimal(
                outcome.dropped@.len(),
            ) + " unscoped path(s)"@
        }),
{
    reveal_strlit("\u{00b7} ");
    reveal_strlit("\u{2600}");
    reveal_strlit("\u{26c8}");
    assert("\u{00b7} "@[0] == '\u{00b7}' && "\u{2600}"@[0] == '\u{2600}' && "\u{26c8}"@[0]
        == '\u{26c8}');
    assert("\u{00b7} "@.len() == 2 && "\u{2600}"@.len() == 1 && "\u{26c8}"@.len() == 1);
}

/// What a landing did to each peer has a row, in their order; a peer that could
/// not be moved is shown with the reason, one with conflicts with their number.
pub proof fn law_ripple_rows_follow_each_other(
    some: Seq<LaneFanoutEntry>,
    more: Seq<LaneFanoutEntry>,
)
    ensures
        ripple_rows(some + more) == ripple_rows(some) + ripple_rows(more),
        forall|e: LaneFanoutEntry| #[trigger] ripple_rows(seq![e]) == ripple_row(e),
        forall|e: LaneFanoutEntry|
            #![trigger ripple_row(e)]
            {
                &&& e.error matches Some(reason) ==> ripple_row(e) == "    \u{26a0} "@ + e.name@
                    + "  "@ + reason@ + "\n"@
                &&& e.error is None && !e.rebased ==> ripple_row(e) == "    \u{2600} "@ + e.name@
                    + "  already current\n"@
                &&& e.error is None && e.rebased && e.conflicts == 0 ==> ripple_row(e)
                    == "    \u{2600} "@ + e.name@ + "  rebased clean\n"@
                &&& e.error is None && e.rebased && e.conflicts > 0 ==> text::starts_with(
                    ripple_row(e),
                    "    \u{26c8} "@ + e.name@ + "  rebased, "@ + text::decimal(
                        e.conflicts as nat,
                    ),
                )
            },
    decreases more.len(),
{
    reveal_with_fuel(ripple_rows, 2);
    if more.len() == 0 {
        assert(some + more =~= some);
        assert(ripple_rows(some + more) =~= ripple_rows(some) + ripple_rows(more));
    } else {
        law_ripple_rows_follow_each_other(some, more.drop_last());
        assert((some + more).drop_last() =~= some + more.drop_last());
        assert(ripple_rows(some + more) =~= ripple_rows(some) + ripple_rows(more));
    }
    assert forall|e: LaneFanoutEntry| #[trigger] ripple_rows(seq![e]) == ripple_row(e) by {
        assert(seq![e].drop_last() =~= Seq::<LaneFanoutEntry>::empty());
        assert(ripple_rows(seq![e]) =~= ripple_row(e));
    }
    assert forall|e: LaneFanoutEntry|
        e.error is None && e.rebased && e.conflicts > 0 implies text::starts_with(
        #[trigger] ripple_row(e),
        "    \u{26c8} "@ + e.name@ + "  rebased, "@ + text::decimal(e.conflicts as nat),
    ) by {
        let head = "    \u{26c8} "@ + e.name@ + "  rebased, "@ + text::decimal(e.conflicts as nat);
        assert(ripple_row(e).take(head.len() as int) =~= head);
    }
}

/// The machine output says of a lane what was found of it, field by field, under
/// the words for its lifecycle and its weather.
pub proof fn law_machine_output_is_of_the_lane(json: LaneJsonEntry, entry: LaneListEntry)
    requires
        json_matches(json, entry),
    ensures
        json.name@ == entry.name@,
        json.lifecycle@ == (match entry.lifecycle {
            LaneLifecycle::Open => "open"@,
            LaneLifecycle::Closed => "closed"@,
            LaneLifecycle::Abandoned => "abandoned"@,
        }),
        json.weather@ == (match weather_of(entry) {
            LaneWeather::Clear => "clear"@,
            LaneWeather::Overcast => "overcast"@,
            LaneWeather::Storm => "storm"@,
            LaneWeather::Fog => "fog"@,
            LaneWeather::Void => "void"@,
        }),
        json.paths@.len() == entry.paths@.len(),
        forall|i: int| 0 <= i < json.paths@.len() ==> (#[trigger] json.paths@[i])@ == entry.paths@[i]@,
        json.workspace_exists == entry.workspace_exists && json.synced == entry.synced,
        json.ahead == entry.ahead && json.behind == entry.behind && json.conflicts
            == entry.conflicts,
        text::views(json.unscoped@) == text::views(entry.unscoped@),
        text::opt_view(json.last_land) == text::opt_view(entry.last_land),
{
    assert(text::views(json.paths@).len() == json.paths@.len());
    assert(types::path_views(entry.paths@).len() == entry.paths@.len());
    assert forall|i: int| 0 <= i < json.paths@.len() implies (#[trigger] json.paths@[i])@
        == entry.paths@[i]@ by {
        assert(text::views(json.paths@)[i] == json.paths@[i]@);
        assert(types::path_views(entry.paths@)[i] == entry.paths@[i]@);
    }
}

/// The report of a collection names everything that was planned.
pub proof fn law_gc_names_follow_each_other(
    some: Seq<WorkspaceName>,
    more: Seq<WorkspaceName>,
    before: Seq<char>,
    after: Seq<char>,
)
    ensures
        name_rows(some + more, before, after) == name_rows(some, before, after) + name_rows(
            more,
            before,
            after,
        ),
        forall|n: WorkspaceName| #[trigger]
            name_rows(seq![n], before, after) == before + n@ + after,
    decreases more.len(),
{
    reveal_with_fuel(name_rows, 2);
    if more.len() == 0 {
        assert(some + more =~= some);
    } else {
        law_gc_names_follow_each_other(some, more.drop_last(), before, after);
        assert((some + more).drop_last() =~= some + more.drop_last());
    }
    assert(name_rows(some + more, before, after) =~= name_rows(some, before, after) + name_rows(
        more,
        before,
        after,
    ));
    assert forall|n: WorkspaceName| #[trigger]
        name_rows(seq![n], before, after) == before + n@ + after by {
        assert(seq![n].drop_last() =~= Seq::<WorkspaceName>::empty());
        assert(name_rows(seq![n], before, after) =~= before + n@ + after);
    }
}

} // verus!
