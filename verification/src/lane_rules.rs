//! Write-sets: what a lane may touch, and how lanes keep out of each other's
//! way.

use vstd::prelude::*;

use crate::error::{self, Error, ErrorKind, Result};
use crate::lane_store::{self, LaneRecord, LaneStore};
use crate::order;
use crate::text::{self, copy};
use crate::types::{self, sorted_paths, LaneLifecycle, LanePath, WorkspaceName};

verus! {

/// A path falls under some prefix of a write-set.
pub open spec fn in_scope(path: Seq<char>, write_set: Seq<Seq<char>>) -> bool {
    exists|i: int| 0 <= i < write_set.len() && types::covers(#[trigger] write_set[i], path)
}

/// Falling under a write-set.
pub open spec fn inside(write_set: Seq<Seq<char>>) -> spec_fn(Seq<char>) -> bool {
    |path: Seq<char>| in_scope(path, write_set)
}

/// Falling outside a write-set.
pub open spec fn outside(write_set: Seq<Seq<char>>) -> spec_fn(Seq<char>) -> bool {
    |path: Seq<char>| !in_scope(path, write_set)
}

/// Whether a path falls under some prefix of a write-set.
pub fn path_in_scope(path: &str, write_set: &Vec<LanePath>) -> (res: bool)
    ensures
        res == in_scope(path@, types::path_views(write_set@)),
{
    let ghost set = types::path_views(write_set@);
    let mut i: usize = 0;
    while i < write_set.len()
        invariant
            i <= write_set@.len(),
            set == types::path_views(write_set@),
            forall|k: int| 0 <= k < i ==> !types::covers(#[trigger] set[k], path@),
        decreases write_set@.len() - i,
    {
        assert(set[i as int] == write_set@[i as int]@);
        if write_set[i].contains(path) {
            return true;
        }
        i = i + 1;
    }
    false
}

/// The changed paths outside a write-set, in order.
pub fn unscoped_paths(changed: &Vec<String>, write_set: &Vec<LanePath>) -> (res: Vec<String>)
    ensures
        text::views(res@) == text::views(changed@).filter(
            outside(types::path_views(write_set@)),
        ),
{
    select_paths(changed, write_set, false)
}

/// The changed paths inside a write-set, in order.
pub fn scoped_paths(changed: &Vec<String>, write_set: &Vec<LanePath>) -> (res: Vec<String>)
    ensures
        text::views(res@) == text::views(changed@).filter(inside(types::path_views(write_set@))),
{
    select_paths(changed, write_set, true)
}

fn select_paths(changed: &Vec<String>, write_set: &Vec<LanePath>, want: bool) -> (res: Vec<String>)
    ensures
        text::views(res@) == text::views(changed@).filter(
            if want {
                inside(types::path_views(write_set@))
            } else {
                outside(types::path_views(write_set@))
            },
        ),
{
    broadcast use text::lemma_views_push;

    let ghost all = text::views(changed@);
    let ghost set = types::path_views(write_set@);
    let ghost keep = if want {
        inside(set)
    } else {
        outside(set)
    };
    let mut out: Vec<String> = Vec::new();
    let mut i: usize = 0;
    proof {
        reveal(Seq::filter);
        assert(all.take(0).filter(keep) =~= Seq::<Seq<char>>::empty());
        text::lemma_views_empty(out@);
    }
    while i < changed.len()
        invariant
            i <= changed@.len(),
            all == text::views(changed@),
            set == types::path_views(write_set@),
            keep == if want {
                inside(set)
            } else {
                outside(set)
            },
            text::views(out@) == all.take(i as int).filter(keep),
        decreases changed@.len() - i,
    {
        let path = changed[i].as_str();
        proof {
            reveal(Seq::filter);
            assert(all.take(i + 1).drop_last() == all.take(i as int));
            assert(all.take(i + 1).last() == path@);
        }
        if path_in_scope(path, write_set) == want {
            out.push(copy(path));
        }
        i = i + 1;
    }
    assert(all.take(i as int) == all);
    out
}

/// Nothing is left outside the write-set exactly if every changed path falls
/// under it.
pub proof fn law_no_unscoped_paths(changed: Seq<Seq<char>>, write_set: Seq<Seq<char>>)
    ensures
        changed.filter(outside(write_set)).len() == 0 <==> forall|i: int|
            0 <= i < changed.len() ==> in_scope(#[trigger] changed[i], write_set),
{
    let keep = outside(write_set);
    let left = changed.filter(keep);
    if left.len() == 0 {
        assert forall|i: int| 0 <= i < changed.len() implies in_scope(
            #[trigger] changed[i],
            write_set,
        ) by {
            if !in_scope(changed[i], write_set) {
                changed.lemma_filter_contains(keep, i);
                let k = choose|k: int| 0 <= k < left.len() && left[k] == changed[i];
            }
        }
    }
    if forall|i: int| 0 <= i < changed.len() ==> in_scope(#[trigger] changed[i], write_set) {
        if left.len() > 0 {
            changed.lemma_filter_pred(keep, 0);
            assert(left.contains(left[0]));
            changed.lemma_filter_contains_rev(keep, left[0]);
            let i = choose|i: int| 0 <= i < changed.len() && changed[i] == left[0];
            assert(in_scope(changed[i], write_set));
        }
    }
}

// ---------------------------------------------------------------------------
// Which lanes may be worked on

/// Why a lane cannot be worked on: it is not registered, or no longer open.
pub open spec fn lane_refusal(records: Seq<LaneRecord>, name: Seq<char>) -> Option<
    error::ErrorView,
> {
    match lane_store::position_of(records, name) {
        None => Some(error::about(ErrorKind::LaneNotFound, name)),
        Some(i) => if records[i].lifecycle == LaneLifecycle::Open {
            None
        } else {
            Some(
                error::about2(
                    ErrorKind::LaneNotOpen,
                    name,
                    records[i].lifecycle.label_text(),
                ),
            )
        },
    }
}

/// The record of an open lane.
pub fn require_open_lane<'a>(store: &'a LaneStore, name: &WorkspaceName) -> (res: Result<
    &'a LaneRecord,
>)
    ensures
        match res {
            Ok(record) => lane_refusal(store.records@, name@) is None && (lane_store::position_of(
                store.records@,
                name@,
            ) matches Some(i) && 0 <= i < store.records@.len() && *record == store.records@[i]),
            Err(e) => lane_refusal(store.records@, name@) == Some(e@),
        },
{
    match store.get(name) {
        None => Err(Error::LaneNotFound(copy(name.as_str()))),
        Some(record) => {
            if record.lifecycle == LaneLifecycle::Open {
                Ok(record)
            } else {
                Err(
                    Error::LaneNotOpen {
                        name: copy(name.as_str()),
                        lifecycle: copy(record.lifecycle.as_str()),
                    },
                )
            }
        },
    }
}

// ---------------------------------------------------------------------------
// Overlap

/// The first of `others`, from position `k` on, that overlaps `path`.
pub open spec fn overlap_with(others: Seq<Seq<char>>, path: Seq<char>, k: int) -> Option<Seq<char>>
    decreases others.len() - k,
{
    if k < 0 || k >= others.len() {
        None
    } else if types::overlap(others[k], path) {
        Some(others[k])
    } else {
        overlap_with(others, path, k + 1)
    }
}

/// The first of `paths`, from position `j` on, that overlaps one of `others`,
/// and which one.
pub open spec fn overlap_among(paths: Seq<Seq<char>>, others: Seq<Seq<char>>, j: int) -> Option<
    (Seq<char>, Seq<char>),
>
    decreases paths.len() - j,
{
    if j < 0 || j >= paths.len() {
        None
    } else {
        match overlap_with(others, paths[j], 0) {
            Some(other) => Some((paths[j], other)),
            None => overlap_among(paths, others, j + 1),
        }
    }
}

/// The error for the first open lane, from position `i` on, other than `name`
/// whose write-set overlaps `paths`.
pub open spec fn overlap_refusal(
    records: Seq<LaneRecord>,
    name: Seq<char>,
    paths: Seq<Seq<char>>,
    i: int,
) -> Option<error::ErrorView>
    decreases records.len() - i,
{
    if i < 0 || i >= records.len() {
        None
    } else if records[i].lifecycle != LaneLifecycle::Open || records[i].name@ == name {
        overlap_refusal(records, name, paths, i + 1)
    } else {
        match overlap_among(paths, records[i]@.paths, 0) {
            Some((path, other)) => Some(
                error::about3(ErrorKind::LaneOverlap, path, records[i].name@, other),
            ),
            None => overlap_refusal(records, name, paths, i + 1),
        }
    }
}

fn find_overlap(others: &Vec<LanePath>, path: &LanePath) -> (res: Option<usize>)
    ensures
        match res {
            Some(k) => k < others@.len() && overlap_with(
                types::path_views(others@),
                path@,
                0,
            ) == Some(others@[k as int]@),
            None => overlap_with(types::path_views(others@), path@, 0) is None,
        },
{
    let ghost set = types::path_views(others@);
    let mut k: usize = 0;
    while k < others.len()
        invariant
            k <= others@.len(),
            set == types::path_views(others@),
            overlap_with(set, path@, 0) == overlap_with(set, path@, k as int),
        decreases others@.len() - k,
    {
        assert(set[k as int] == others@[k as int]@);
        if others[k].overlaps(path) {
            return Some(k);
        }
        k = k + 1;
    }
    None
}

/// Refuse paths that overlap the write-set of another open lane.
pub fn check_overlap_excluding(
    store: &LaneStore,
    name: &WorkspaceName,
    paths: &Vec<LanePath>,
) -> (res: Result<()>)
    ensures
        match res {
            Ok(_) => overlap_refusal(store.records@, name@, types::path_views(paths@), 0) is None,
            Err(e) => overlap_refusal(store.records@, name@, types::path_views(paths@), 0) == Some(
                e@,
            ),
        },
{
    let ghost mine = types::path_views(paths@);
    let mut i: usize = 0;
    while i < store.records.len()
        invariant
            i <= store.records@.len(),
            mine == types::path_views(paths@),
            overlap_refusal(store.records@, name@, mine, 0) == overlap_refusal(
                store.records@,
                name@,
                mine,
                i as int,
            ),
        decreases store.records@.len() - i,
    {
        let lane = &store.records[i];
        if lane.lifecycle == LaneLifecycle::Open && !lane.name.same_as(name) {
            let ghost theirs = lane@.paths;
            let mut j: usize = 0;
            while j < paths.len()
                invariant
                    j <= paths@.len(),
                    i < store.records@.len(),
                    *lane == store.records@[i as int],
                    lane.lifecycle == LaneLifecycle::Open,
                    lane.name@ != name@,
                    theirs == lane@.paths,
                    mine == types::path_views(paths@),
                    overlap_among(mine, theirs, 0) == overlap_among(mine, theirs, j as int),
                    overlap_refusal(store.records@, name@, mine, 0) == overlap_refusal(
                        store.records@,
                        name@,
                        mine,
                        i as int,
                    ),
                decreases paths@.len() - j,
            {
                assert(mine[j as int] == paths@[j as int]@);
                if let Some(k) = find_overlap(&lane.paths, &paths[j]) {
                    return Err(
                        Error::LaneOverlap {
                            path: copy(paths[j].as_str()),
                            other: copy(lane.name.as_str()),
                            other_path: copy(lane.paths[k].as_str()),
                        },
                    );
                }
                j = j + 1;
            }
        }
        i = i + 1;
    }
    Ok(())
}

/// Two write-sets have no path in common.
pub open spec fn disjoint_sets(a: Seq<Seq<char>>, b: Seq<Seq<char>>) -> bool {
    forall|i: int, j: int|
        0 <= i < a.len() && 0 <= j < b.len() ==> !types::overlap(
            #[trigger] a[i],
            #[trigger] b[j],
        )
}

/// No two open lanes of different names overlap.
pub open spec fn lanes_disjoint(records: Seq<LaneRecord>) -> bool {
    forall|r: LaneRecord, s: LaneRecord|
        #[trigger] records.contains(r) && #[trigger] records.contains(s) && r.lifecycle
            == LaneLifecycle::Open && s.lifecycle == LaneLifecycle::Open && r.name@ != s.name@
            ==> disjoint_sets(r@.paths, s@.paths)
}

proof fn lemma_overlap_with_none(others: Seq<Seq<char>>, path: Seq<char>, k: int)
    requires
        0 <= k <= others.len(),
    ensures
        overlap_with(others, path, k) is None <==> forall|i: int|
            k <= i < others.len() ==> !types::overlap(#[trigger] others[i], path),
    decreases others.len() - k,
{
    if k < others.len() {
        lemma_overlap_with_none(others, path, k + 1);
    }
}

proof fn lemma_overlap_among_none(paths: Seq<Seq<char>>, others: Seq<Seq<char>>, j: int)
    requires
        0 <= j <= paths.len(),
    ensures
        overlap_among(paths, others, j) is None <==> forall|a: int, b: int|
            j <= a < paths.len() && 0 <= b < others.len() ==> !types::overlap(
                #[trigger] others[b],
                #[trigger] paths[a],
            ),
    decreases paths.len() - j,
{
    if j < paths.len() {
        lemma_overlap_with_none(others, paths[j], 0);
        lemma_overlap_among_none(paths, others, j + 1);
        if overlap_among(paths, others, j) is None {
            assert forall|a: int, b: int|
                j <= a < paths.len() && 0 <= b < others.len() implies !types::overlap(
                #[trigger] others[b],
                #[trigger] paths[a],
            ) by {
                if a == j {
                    assert(!types::overlap(others[b], paths[j]));
                }
            }
        } else if overlap_with(others, paths[j], 0) is Some {
            let b = choose|b: int|
                0 <= b < others.len() && types::overlap(#[trigger] others[b], paths[j]);
            assert(types::overlap(others[b], paths[j]));
        }
    }
}

/// Nothing is refused exactly if no other open lane overlaps.
pub proof fn law_overlap_refused_exactly(
    records: Seq<LaneRecord>,
    name: Seq<char>,
    paths: Seq<Seq<char>>,
    i: int,
)
    requires
        0 <= i <= records.len(),
    ensures
        overlap_refusal(records, name, paths, i) is None <==> forall|k: int|
            i <= k < records.len() && (#[trigger] records[k]).lifecycle == LaneLifecycle::Open
                && records[k].name@ != name ==> disjoint_sets(records[k]@.paths, paths),
    decreases records.len() - i,
{
    if i < records.len() {
        law_overlap_refused_exactly(records, name, paths, i + 1);
        lemma_overlap_among_none(paths, records[i]@.paths, 0);
        if records[i].lifecycle == LaneLifecycle::Open && records[i].name@ != name {
            if overlap_among(paths, records[i]@.paths, 0) is None {
                assert(disjoint_sets(records[i]@.paths, paths));
            } else {
                assert(!disjoint_sets(records[i]@.paths, paths));
            }
        }
    }
}

/// Opening a lane whose paths were not refused keeps the open lanes apart.
pub proof fn law_open_keeps_lanes_disjoint(
    before: Seq<LaneRecord>,
    record: LaneRecord,
    after: Seq<LaneRecord>,
)
    requires
        lanes_disjoint(before),
        overlap_refusal(before, record.name@, record@.paths, 0) is None,
        ({
            let items = before.filter(lane_store::named_otherwise(record.name@)).push(record);
            order::sorted_rising(after, items, lane_store::record_names(items))
        }),
        forall|i: int| 0 <= i < record@.paths.len() ==> types::is_lane_path(#[trigger] record@.paths[i]),
    ensures
        lanes_disjoint(after),
{
    lane_store::law_insert(before, record, after);
    law_overlap_refused_exactly(before, record.name@, record@.paths, 0);
    assert forall|r: LaneRecord, s: LaneRecord|
        #[trigger] after.contains(r) && #[trigger] after.contains(s) && r.lifecycle
            == LaneLifecycle::Open && s.lifecycle == LaneLifecycle::Open && r.name@
            != s.name@ implies disjoint_sets(r@.paths, s@.paths) by {
        if r == record {
            let k = choose|k: int| 0 <= k < before.len() && before[k] == s;
            assert(disjoint_sets(before[k]@.paths, record@.paths));
            lemma_disjoint_symmetric(s@.paths, record@.paths);
        } else if s == record {
            let k = choose|k: int| 0 <= k < before.len() && before[k] == r;
            assert(disjoint_sets(before[k]@.paths, record@.paths));
        } else {
            assert(before.contains(r) && before.contains(s));
        }
    }
}

/// Being apart goes both ways.
pub proof fn lemma_disjoint_symmetric(a: Seq<Seq<char>>, b: Seq<Seq<char>>)
    requires
        disjoint_sets(a, b),
        forall|i: int| 0 <= i < b.len() ==> types::is_lane_path(#[trigger] b[i]),
    ensures
        disjoint_sets(b, a),
{
    assert forall|i: int, j: int| 0 <= i < b.len() && 0 <= j < a.len() implies !types::overlap(
        #[trigger] b[i],
        #[trigger] a[j],
    ) by {
        assert(!types::overlap(a[j], b[i]));
        types::law_overlap_symmetric(b[i], a[j]);
    }
}

// ---------------------------------------------------------------------------
// Widening and shrinking a write-set

/// Not being one of these texts.
pub open spec fn not_among(texts: Seq<Seq<char>>) -> spec_fn(Seq<char>) -> bool {
    |t: Seq<char>| !texts.contains(t)
}

/// The write-set with more paths.
pub fn merged_paths(current: &Vec<LanePath>, more: &Vec<LanePath>) -> (res: Vec<LanePath>)
    ensures
        order::sorted_set_of(
            types::path_views(res@),
            types::path_views(current@) + types::path_views(more@),
        ),
{
    let mut all = types::clone_paths(current);
    let mut extra = types::clone_paths(more);
    all.append(&mut extra);
    assert(types::path_views(all@) =~= types::path_views(current@) + types::path_views(more@));
    sorted_paths(&all)
}

/// The write-set without some paths, in order.
pub fn remaining_paths(current: &Vec<LanePath>, released: &Vec<LanePath>) -> (res: Vec<LanePath>)
    ensures
        types::path_views(res@) == types::path_views(current@).filter(
            not_among(types::path_views(released@)),
        ),
{
    let ghost all = types::path_views(current@);
    let ghost gone = types::path_views(released@);
    let ghost keep = not_among(gone);
    let mut out: Vec<LanePath> = Vec::new();
    let mut i: usize = 0;
    proof {
        reveal(Seq::filter);
        assert(all.take(0).filter(keep) =~= Seq::<Seq<char>>::empty());
        assert(types::path_views(out@) =~= Seq::<Seq<char>>::empty());
    }
    while i < current.len()
        invariant
            i <= current@.len(),
            all == types::path_views(current@),
            gone == types::path_views(released@),
            keep == not_among(gone),
            types::path_views(out@) == all.take(i as int).filter(keep),
        decreases current@.len() - i,
    {
        let ghost before = out@;
        proof {
            reveal(Seq::filter);
            assert(all.take(i + 1).drop_last() == all.take(i as int));
            assert(all.take(i + 1).last() == current@[i as int]@);
        }
        let mut found = false;
        let mut k: usize = 0;
        while k < released.len()
            invariant
                k <= released@.len(),
                i < current@.len(),
                gone == types::path_views(released@),
                found == exists|m: int| 0 <= m < k && #[trigger] gone[m] == current@[i as int]@,
            decreases released@.len() - k,
        {
            assert(gone[k as int] == released@[k as int]@);
            if text::same(released[k].as_str(), current[i].as_str()) {
                found = true;
            }
            k = k + 1;
        }
        assert(found == gone.contains(current@[i as int]@));
        if !found {
            out.push(current[i].clone());
            assert(types::path_views(out@) =~= types::path_views(before).push(current@[i as int]@));
        }
        i = i + 1;
    }
    assert(all.take(i as int) == all);
    out
}

/// A lane can be worked on exactly where the first record of its name is open;
/// where there is none, or it is retired, the refusal says which.
pub proof fn law_only_open_lanes_are_worked_on(records: Seq<LaneRecord>, name: Seq<char>)
    ensures
        match lane_refusal(records, name) {
            None => exists|p: int|
                0 <= p < records.len() && (#[trigger] records[p]).name@ == name
                    && records[p].lifecycle == LaneLifecycle::Open && forall|j: int|
                    0 <= j < p ==> (#[trigger] records[j]).name@ != name,
            Some(e) => if e.kind == ErrorKind::LaneNotFound {
                e.args == seq![name] && forall|j: int|
                    0 <= j < records.len() ==> (#[trigger] records[j]).name@ != name
            } else {
                e.kind == ErrorKind::LaneNotOpen && exists|p: int|
                    0 <= p < records.len() && (#[trigger] records[p]).name@ == name
                        && records[p].lifecycle != LaneLifecycle::Open && e.args == seq![
                        name,
                        records[p].lifecycle.label_text(),
                    ] && forall|j: int| 0 <= j < p ==> (#[trigger] records[j]).name@ != name
            },
        },
{
    lane_store::law_lanes_are_found_by_name(records, name);
    if let Some(p) = lane_store::position_of(records, name) {
        assert(records[p].name@ == name);
    }
}

/// An overlap that is reported is there: one of the given paths overlaps a path
/// of an open lane of another name, and the report names all three.
pub proof fn law_reported_overlap_is_there(
    records: Seq<LaneRecord>,
    name: Seq<char>,
    paths: Seq<Seq<char>>,
    i: int,
)
    requires
        0 <= i <= records.len(),
    ensures
        overlap_refusal(records, name, paths, i) matches Some(e) ==> e.kind
            == ErrorKind::LaneOverlap && e.args.len() == 3 && paths.contains(e.args[0])
            && types::overlap(e.args[2], e.args[0]) && exists|k: int|
            i <= k < records.len() && (#[trigger] records[k]).lifecycle == LaneLifecycle::Open
                && records[k].name@ != name && records[k].name@ == e.args[1]
                && records[k]@.paths.contains(e.args[2]),
    decreases records.len() - i,
{
    if i < records.len() {
        law_reported_overlap_is_there(records, name, paths, i + 1);
        lemma_overlap_among_some(paths, records[i]@.paths, 0);
        assert(records[i] == records[i]);
    }
}

proof fn lemma_overlap_among_some(paths: Seq<Seq<char>>, others: Seq<Seq<char>>, j: int)
    requires
        0 <= j <= paths.len(),
    ensures
        overlap_among(paths, others, j) matches Some((path, other)) ==> paths.contains(path)
            && others.contains(other) && types::overlap(other, path),
    decreases paths.len() - j,
{
    if j < paths.len() {
        lemma_overlap_with_some(others, paths[j], 0);
        lemma_overlap_among_some(paths, others, j + 1);
    }
}

proof fn lemma_overlap_with_some(others: Seq<Seq<char>>, path: Seq<char>, k: int)
    requires
        0 <= k <= others.len(),
    ensures
        overlap_with(others, path, k) matches Some(other) ==> others.contains(other)
            && types::overlap(other, path),
    decreases others.len() - k,
{
    if k < others.len() {
        lemma_overlap_with_some(others, path, k + 1);
    }
}

/// Inside and outside divide the changed paths: each is in exactly one of the
/// two, and neither holds anything else.
pub proof fn law_scope_divides_paths(
    changed: Seq<Seq<char>>,
    write_set: Seq<Seq<char>>,
    path: Seq<char>,
)
    ensures
        changed.filter(inside(write_set)).contains(path) <==> changed.contains(path) && in_scope(
            path,
            write_set,
        ),
        changed.filter(outside(write_set)).contains(path) <==> changed.contains(path) && !in_scope(
            path,
            write_set,
        ),
        in_scope(path, write_set) <==> exists|p: Seq<char>|
            write_set.contains(p) && #[trigger] types::covers(p, path),
{
    lemma_filter_is_selection(changed, inside(write_set), path);
    lemma_filter_is_selection(changed, outside(write_set), path);
    if in_scope(path, write_set) {
        let i = choose|i: int|
            0 <= i < write_set.len() && types::covers(#[trigger] write_set[i], path);
        assert(write_set.contains(write_set[i]) && types::covers(write_set[i], path));
    }
    if exists|p: Seq<char>| write_set.contains(p) && #[trigger] types::covers(p, path) {
        let p = choose|p: Seq<char>| write_set.contains(p) && #[trigger] types::covers(p, path);
        let i = choose|i: int| 0 <= i < write_set.len() && write_set[i] == p;
        assert(types::covers(write_set[i], path));
    }
}

proof fn lemma_filter_is_selection(
    s: Seq<Seq<char>>,
    keep: spec_fn(Seq<char>) -> bool,
    x: Seq<char>,
)
    ensures
        s.filter(keep).contains(x) <==> s.contains(x) && keep(x),
{
    if s.filter(keep).contains(x) {
        let k = choose|k: int| 0 <= k < s.filter(keep).len() && s.filter(keep)[k] == x;
        s.lemma_filter_pred(keep, k);
        s.lemma_filter_contains_rev(keep, x);
    }
    if s.contains(x) && keep(x) {
        let i = choose|i: int| 0 <= i < s.len() && s[i] == x;
        s.lemma_filter_contains(keep, i);
    }
}

/// Releasing paths takes exactly these out of a write-set.
pub proof fn law_release_takes_only_what_is_named(
    current: Seq<Seq<char>>,
    released: Seq<Seq<char>>,
    path: Seq<char>,
)
    ensures
        current.filter(not_among(released)).contains(path) <==> current.contains(path)
            && !released.contains(path),
{
    lemma_filter_is_selection(current, not_among(released), path);
}

/// What was claimed and is released again leaves the write-set as it was, where
/// it was not part of it before.
pub proof fn law_release_undoes_a_claim(
    before: Seq<Seq<char>>,
    claimed: Seq<Seq<char>>,
    merged: Seq<Seq<char>>,
)
    requires
        order::increasing(before),
        order::sorted_set_of(merged, before + claimed),
        forall|i: int| 0 <= i < claimed.len() ==> !before.contains(#[trigger] claimed[i]),
    ensures
        forall|path: Seq<char>| #[trigger]
            merged.filter(not_among(claimed)).contains(path) <==> before.contains(path),
{
    assert forall|path: Seq<char>| #[trigger]
        merged.filter(not_among(claimed)).contains(path) <==> before.contains(path) by {
        lemma_filter_is_selection(merged, not_among(claimed), path);
        assert(merged.contains(path) <==> (before + claimed).contains(path));
        if before.contains(path) {
            let i = choose|i: int| 0 <= i < before.len() && before[i] == path;
            assert((before + claimed)[i] == path);
            if claimed.contains(path) {
                let k = choose|k: int| 0 <= k < claimed.len() && claimed[k] == path;
                assert(!before.contains(claimed[k]));
            }
        }
        if (before + claimed).contains(path) && !claimed.contains(path) {
            let i = choose|i: int| 0 <= i < (before + claimed).len() && (before + claimed)[i] == path;
            if i >= before.len() {
                assert(claimed[i - before.len()] == path);
            }
        }
    }
}

} // verus!
