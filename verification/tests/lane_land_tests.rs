use jj_navi::cli::{dispatch, machine_context, Action, Command, LaneCommand};
use jj_navi::error::{render_domain_error, Error};
use jj_navi::lane_land::{Hygiene, LandFacts, LandStep, TargetAnswer, WorkingCopy};
use jj_navi::lane_ops::NaviWorkspace;
use jj_navi::lane_render::{render_lane_land_outcome, render_lane_sync_outcomes};
use jj_navi::lane_store::LaneStore;
use jj_navi::lane_sync::{fan_out_peer, fan_out_peers, PeerFacts, PeerStep, SyncFacts, SyncStep};
use jj_navi::timestamp::Timestamp;
use jj_navi::types::{
    LaneFanoutEntry, LaneLandOutcome, LaneLandRequest, LaneLifecycle, LanePath, LaneRev,
    LaneSyncOutcome, RepoConfig, ResolvePolicy, ResolveStrategy, WorkspaceName,
};

const NOW: Timestamp = Timestamp { unix_nanos: 1_700_000_000_000_000_000, offset_seconds: 0 };

fn name(value: &str) -> WorkspaceName {
    WorkspaceName::new(value.to_owned()).unwrap()
}

fn rev(commit: &str, message: &str) -> LaneRev {
    LaneRev {
        commit_id: commit.to_owned(),
        change_id: format!("change-{commit}"),
        message: message.to_owned(),
    }
}

fn trunk_repo() -> NaviWorkspace {
    NaviWorkspace {
        workspace_root: "/work/repo".to_owned(),
        workspace_name: name("default"),
        repo_storage_path: "/work/repo/.jj/repo".to_owned(),
        repo_name: "repo".to_owned(),
        config: RepoConfig::default(),
    }
}

fn bookmark_repo() -> NaviWorkspace {
    let mut repo = trunk_repo();
    repo.config.lane.target = Some("main".to_owned());
    repo
}

fn gated_repo(command: &str) -> NaviWorkspace {
    let mut repo = trunk_repo();
    repo.config.lane.gate = Some(command.to_owned());
    repo
}

fn lanes(open: &[(&str, &str)]) -> LaneStore {
    let mut store = LaneStore::empty("/work/repo/.jj/repo/navi/lanes.toml".to_owned());
    for (lane, path) in open {
        let paths = vec![LanePath::new(path.to_string()).unwrap()];
        trunk_repo()
            .lane_open(
                &mut store,
                &name(lane),
                paths,
                false,
                None,
                false,
                rev("base", "Base commit"),
                &format!("/work/repo.{lane}"),
                NOW,
            )
            .unwrap();
    }
    store
}

fn request(message: Option<&str>) -> LaneLandRequest {
    LaneLandRequest {
        message: message.map(str::to_owned),
        no_gate: false,
        gate_override: None,
        allow_unscoped: false,
        close: false,
    }
}

/// What a repository answers while a lane lands.
struct Answers {
    lane_root: bool,
    head: &'static str,
    head_at_lock: &'static str,
    synced: bool,
    behind: usize,
    conflicts: usize,
    empty: bool,
    message: &'static str,
    parents: Vec<(&'static str, &'static str)>,
    changed: Vec<&'static str>,
    trunk_dirty: Vec<&'static str>,
    hygiene: Hygiene,
    hygiene_at_lock: Hygiene,
    pinned: Vec<&'static str>,
    gate_passes: bool,
}

const CLEAN: Hygiene = Hygiene { conflicts: 0, divergent: 0, undescribed: 0 };

/// One undescribed change in `src` on top of the head.
fn work_in_src() -> Answers {
    Answers {
        lane_root: true,
        head: "h0",
        head_at_lock: "h0",
        synced: true,
        behind: 0,
        conflicts: 0,
        empty: false,
        message: "",
        parents: vec![("h0", "Base commit")],
        changed: vec!["src/lib.rs"],
        trunk_dirty: Vec::new(),
        hygiene: CLEAN,
        hygiene_at_lock: CLEAN,
        pinned: vec!["t1"],
        gate_passes: true,
    }
}

fn nothing_known() -> LandFacts {
    LandFacts {
        lane_root: None,
        lane_snapshot: false,
        target: None,
        synced: None,
        behind: None,
        conflicts: None,
        working_copy: None,
        changed: None,
        trunk_snapshot: false,
        trunk_dirty: None,
        hygiene: None,
        described: false,
        parked: false,
        pinned: None,
        gate_passed: None,
        locked: false,
        target_again: None,
        hygiene_again: None,
        landed_changes: None,
        integration_ready: false,
        advanced: false,
        recorded: false,
    }
}

fn texts(values: &[&str]) -> Vec<String> {
    values.iter().map(|v| v.to_string()).collect()
}

fn target(head: &str) -> Option<TargetAnswer> {
    Some(TargetAnswer { trunk_exists: true, heads: vec![rev(head, "Base commit")] })
}

/// Land a lane, and list what was done besides asking.
fn land(
    repo: &NaviWorkspace,
    store: &LaneStore,
    lane: &str,
    request: &LaneLandRequest,
    answers: &Answers,
) -> (Vec<String>, Result<LaneRev, Error>) {
    let mut facts = nothing_known();
    let mut done: Vec<String> = Vec::new();
    for _ in 0..40 {
        match repo.lane_land(store, &name(lane), request, &facts) {
            LandStep::Refuse(error) => return (done, Err(error)),
            LandStep::Finish(tip) => return (done, Ok(tip)),
            LandStep::CheckLaneRoot => facts.lane_root = Some(answers.lane_root),
            LandStep::SnapshotLane(_) => {
                done.push("snapshot lane".to_owned());
                facts.lane_snapshot = true;
            }
            LandStep::AskTarget(_) => facts.target = target(answers.head),
            LandStep::AskSynced(_) => facts.synced = Some(answers.synced),
            LandStep::AskBehind(_) => facts.behind = Some(answers.behind),
            LandStep::AskConflicts(_) => facts.conflicts = Some(answers.conflicts),
            LandStep::AskWorkingCopy => {
                facts.working_copy = Some(WorkingCopy {
                    empty: answers.empty,
                    message: answers.message.to_owned(),
                    parents: answers.parents.iter().map(|(c, m)| rev(c, m)).collect(),
                })
            }
            LandStep::AskChanged(_) => facts.changed = Some(texts(&answers.changed)),
            LandStep::SnapshotTrunk(_) => {
                done.push("snapshot trunk".to_owned());
                facts.trunk_snapshot = true;
            }
            LandStep::AskTrunkDirty(_) => facts.trunk_dirty = Some(texts(&answers.trunk_dirty)),
            LandStep::AskHygiene(_) => facts.hygiene = Some(answers.hygiene),
            LandStep::Describe(jj) => {
                done.push(jj.args.join(" "));
                facts.described = true;
            }
            LandStep::Park(jj) => {
                done.push(jj.args.join(" "));
                facts.parked = true;
            }
            LandStep::AskPinned(_) => {
                facts.pinned = Some(answers.pinned.iter().map(|c| rev(c, "work")).collect())
            }
            LandStep::RunGate(command) => {
                done.push(format!("run {command}"));
                facts.gate_passed = Some(answers.gate_passes);
            }
            LandStep::TakeLock => {
                done.push("lock".to_owned());
                facts.locked = true;
            }
            LandStep::AskTargetAgain(_) => facts.target_again = target(answers.head_at_lock),
            LandStep::AskHygieneAgain(_) => facts.hygiene_again = Some(answers.hygiene_at_lock),
            LandStep::AskLandedChanges(_) => facts.landed_changes = Some(1),
            LandStep::PrepareIntegration => {
                done.push("prepare integration".to_owned());
                facts.integration_ready = true;
            }
            LandStep::AdvanceTrunk(jj) | LandStep::AdvanceBookmark(jj) => {
                done.push(jj.args.join(" "));
                facts.advanced = true;
            }
            LandStep::Record(tip) => {
                done.push(format!("record {}", tip.commit_id));
                facts.recorded = true;
            }
        }
    }
    panic!("a landing ends: {done:?}")
}

fn refusal(repo: &NaviWorkspace, answers: &Answers) -> Error {
    let store = lanes(&[("alpha", "src")]);
    let (done, result) = land(repo, &store, "alpha", &request(Some("work")), answers);
    assert!(!done.iter().any(|step| step.starts_with("record")), "{done:?}");
    result.err().unwrap()
}

fn ripple(lane: &str, head: &str, current: bool, conflicts: usize) -> (Vec<String>, LaneFanoutEntry) {
    let mut facts = PeerFacts {
        workspace_exists: None,
        current: None,
        snapshotted: false,
        rebased: false,
        recovered: false,
        conflicts: None,
        error: None,
    };
    let mut done: Vec<String> = Vec::new();
    for _ in 0..10 {
        match fan_out_peer(&name(lane), head, &facts) {
            PeerStep::AskWorkspace => facts.workspace_exists = Some(true),
            PeerStep::AskCurrent(_) => facts.current = Some(current),
            PeerStep::Snapshot(jj) => {
                done.push(jj.args.join(" "));
                facts.snapshotted = true;
            }
            PeerStep::Rebase(jj) => {
                done.push(jj.args.join(" "));
                facts.rebased = true;
            }
            PeerStep::Recover(jj) => {
                done.push(jj.args.join(" "));
                facts.recovered = true;
            }
            PeerStep::AskConflicts(_) => facts.conflicts = Some(conflicts),
            PeerStep::Done(entry) => return (done, entry),
        }
    }
    panic!("a ripple ends: {done:?}")
}

/// What a repository answers while a lane is synced.
struct SyncAnswers {
    synced: bool,
    conflicts: Vec<LaneRev>,
    changed: Vec<&'static str>,
}

fn sync(
    repo: &NaviWorkspace,
    store: &LaneStore,
    drop_unscoped: bool,
    answers: &SyncAnswers,
) -> (Vec<String>, LaneSyncOutcome) {
    let mut facts = SyncFacts {
        workspace_exists: None,
        recovered_stale: None,
        synced: None,
        rebased: false,
        refreshed: false,
        conflicts: None,
        policies_applied: false,
        changed: None,
        dropped: false,
    };
    let mut done: Vec<String> = Vec::new();
    for _ in 0..20 {
        match repo.sync_one(&store.records[0], "h1", drop_unscoped, &facts) {
            SyncStep::AskWorkspace => facts.workspace_exists = Some(true),
            SyncStep::Snapshot(_) => {
                done.push("snapshot".to_owned());
                facts.recovered_stale = Some(false);
            }
            SyncStep::AskSynced(_) => facts.synced = Some(answers.synced),
            SyncStep::Rebase(jj) => {
                done.push(jj.args.join(" "));
                facts.rebased = true;
            }
            SyncStep::Refresh(jj) => {
                done.push(jj.args.join(" "));
                facts.refreshed = true;
            }
            SyncStep::AskConflicts(_) => {
                facts.conflicts = Some(
                    answers.conflicts.iter().map(|r| rev(&r.commit_id, &r.message)).collect(),
                )
            }
            SyncStep::ApplyPolicies => {
                done.push("policies".to_owned());
                facts.policies_applied = true;
                facts.conflicts = Some(Vec::new());
            }
            SyncStep::AskChanged(_) => facts.changed = Some(texts(&answers.changed)),
            SyncStep::Drop(jj) => {
                done.push(jj.args.join(" "));
                facts.dropped = true;
            }
            SyncStep::Done(outcome) => return (done, outcome),
        }
    }
    panic!("a sync ends: {done:?}")
}

#[test]
fn landing_advances_bookmark_without_touching_any_working_copy() {
    let store = lanes(&[("alpha", "src"), ("beta", "docs")]);
    let (done, landed) =
        land(&bookmark_repo(), &store, "alpha", &request(Some("alpha work")), &work_in_src());
    let landed = landed.unwrap();
    assert_eq!(landed.commit_id, "t1");
    assert_eq!(
        done,
        [
            "snapshot lane",
            "describe -r @ -m alpha work",
            "new @",
            "lock",
            "prepare integration",
            "bookmark move main --to t1",
            "record t1",
        ]
    );
    assert!(!done.iter().any(|step| step.contains("default")), "{done:?}");

    let peers = fan_out_peers(&store, &name("alpha"));
    assert_eq!(peers, vec![name("beta")]);
    let (_, beta) = ripple("beta", &landed.commit_id, false, 0);
    assert!(beta.rebased);
    assert_eq!(beta.error, None);
}

#[test]
fn landing_refuses_undescribed_work_in_bookmark_mode() {
    let store = lanes(&[("alpha", "src")]);
    let mut answers = work_in_src();
    answers.hygiene = Hygiene { conflicts: 0, divergent: 0, undescribed: 1 };
    let top = request(Some("top work"));
    let (done, result) = land(&bookmark_repo(), &store, "alpha", &top, &answers);
    let error = result.err().unwrap();
    assert_eq!(done, ["snapshot lane"]);
    assert_eq!(error.code(), "target-hygiene");
    assert!(error.message().contains("undescribed commit(s)"), "{error:?}");

    answers.hygiene = CLEAN;
    assert!(land(&bookmark_repo(), &store, "alpha", &top, &answers).1.is_ok());
}

#[test]
fn hygiene_is_read_again_under_the_lock() {
    for (hygiene, reason) in [
        (
            Hygiene { conflicts: 2, divergent: 1, undescribed: 1 },
            "2 conflicted commit(s) below the head",
        ),
        (
            Hygiene { conflicts: 0, divergent: 3, undescribed: 1 },
            "3 divergent commit(s) below the head",
        ),
        (
            Hygiene { conflicts: 0, divergent: 0, undescribed: 1 },
            "1 undescribed commit(s) in the landed range",
        ),
    ] {
        let mut answers = work_in_src();
        answers.hygiene_at_lock = hygiene;
        assert_eq!(
            refusal(&bookmark_repo(), &answers),
            Error::LaneTargetHygiene { target: "main".to_owned(), reason: reason.to_owned() }
        );
    }
}

#[test]
fn lane_land_fast_forwards_trunk_and_ripples_to_peers() {
    let store = lanes(&[("alpha", "src"), ("beta", "docs")]);
    let (done, landed) =
        land(&trunk_repo(), &store, "alpha", &request(Some("add hello")), &work_in_src());
    let landed = landed.unwrap();
    assert_eq!(landed.commit_id, "t1");
    assert_eq!(
        done,
        [
            "snapshot lane",
            "snapshot trunk",
            "describe -r @ -m add hello",
            "new @",
            "lock",
            "rebase -s @ -d t1",
            "record t1",
        ]
    );
    let (moved, beta) = ripple("beta", "t1", false, 0);
    assert_eq!(moved[1], "rebase -b \"beta\"@ -d t1");

    let report = render_lane_land_outcome(&LaneLandOutcome {
        name: name("alpha"),
        landed,
        landed_changes: 1,
        gate: None,
        fanout: vec![beta],
        closed: false,
    });
    assert!(report.contains("landed lane 'alpha'"), "output: {report}");
    assert!(report.contains("ripple"), "output: {report}");
    assert_eq!(
        report,
        "landed lane 'alpha': 1 change(s) fast-forwarded onto trunk\n  head: change change-t1  commit t1  work\n  ripple:\n    \u{2600} beta  rebased clean\n"
    );
}

#[test]
fn lane_land_refuses_unscoped_changes_and_sync_can_drop_them() {
    let store = lanes(&[("alpha", "src")]);
    let mut answers = work_in_src();
    answers.changed = vec!["rogue.txt", "src/lib.rs"];
    let scoped = request(Some("scoped work"));
    let error = land(&trunk_repo(), &store, "alpha", &scoped, &answers).1.err().unwrap();
    assert!(error.message().contains("outside its write-set"), "{error:?}");
    assert_eq!(
        error,
        Error::LaneUnscopedChanges { lane: "alpha".to_owned(), paths: "rogue.txt".to_owned() }
    );

    let (_, outcome) = sync(
        &trunk_repo(),
        &store,
        true,
        &SyncAnswers { synced: true, conflicts: Vec::new(), changed: answers.changed.clone() },
    );
    let report = render_lane_sync_outcomes(&vec![outcome]);
    assert!(report.contains("dropped"), "output: {report}");
    assert!(report.contains("rogue.txt"), "output: {report}");

    answers.changed = vec!["src/lib.rs"];
    assert!(land(&trunk_repo(), &store, "alpha", &scoped, &answers).1.is_ok());
}

#[test]
fn lane_land_requires_sync_after_trunk_advances() {
    let store = lanes(&[("alpha", "src")]);
    let mut answers = work_in_src();
    answers.synced = false;
    answers.behind = 1;
    let work = request(Some("lane work"));
    let error = land(&trunk_repo(), &store, "alpha", &work, &answers).1.err().unwrap();
    assert!(error.message().contains("not synced"), "{error:?}");

    let (done, outcome) = sync(
        &trunk_repo(),
        &store,
        false,
        &SyncAnswers { synced: false, conflicts: Vec::new(), changed: Vec::new() },
    );
    assert_eq!(
        done,
        ["snapshot", "rebase -b \"alpha\"@ -d h1", "workspace update-stale"]
    );
    assert!(render_lane_sync_outcomes(&vec![outcome]).contains("rebased onto trunk head"));

    answers.synced = true;
    assert!(land(&trunk_repo(), &store, "alpha", &work, &answers).1.is_ok());
}

#[test]
fn lane_sync_reports_conflicts_and_land_refuses_them() {
    let store = lanes(&[("alpha", "src")]);
    let (_, outcome) = sync(
        &trunk_repo(),
        &store,
        false,
        &SyncAnswers {
            synced: false,
            conflicts: vec![rev("c1", "lane version")],
            changed: Vec::new(),
        },
    );
    let report = render_lane_sync_outcomes(&vec![outcome]);
    assert!(report.contains("conflict"), "output: {report}");
    assert_eq!(
        report,
        "\u{26c8} alpha  rebased onto trunk head\n    conflict: change change-c1  lane version\n"
    );

    let mut answers = work_in_src();
    answers.conflicts = 1;
    let error = refusal(&trunk_repo(), &answers);
    assert!(error.message().contains("conflicted"), "{error:?}");
}

#[test]
fn lane_land_runs_gate_and_gate_failure_blocks_landing() {
    let repo = gated_repo("test -f src/lib.rs");
    let store = lanes(&[("alpha", "src"), ("beta", "docs")]);
    let (done, landed) =
        land(&repo, &store, "alpha", &request(Some("gated work")), &work_in_src());
    assert!(done.contains(&"run test -f src/lib.rs".to_owned()));
    let report = render_lane_land_outcome(&LaneLandOutcome {
        name: name("alpha"),
        landed: landed.unwrap(),
        landed_changes: 1,
        gate: repo.landing_gate(&request(None)),
        fanout: Vec::new(),
        closed: false,
    });
    assert!(report.contains("gate: passed"), "output: {report}");

    let mut answers = work_in_src();
    answers.changed = vec!["docs/readme.md"];
    answers.gate_passes = false;
    let (done, result) = land(&repo, &store, "beta", &request(Some("docs work")), &answers);
    let error = result.err().unwrap();
    assert!(error.message().contains("gate command failed"), "{error:?}");
    assert!(!done.iter().any(|step| step.starts_with("rebase")), "{done:?}");
    assert!(!done.contains(&"lock".to_owned()));
}

#[test]
fn lane_land_close_retires_the_lane() {
    let mut store = lanes(&[("alpha", "src")]);
    let mut closing = request(Some("final work"));
    closing.close = true;
    let (_, landed) = land(&trunk_repo(), &store, "alpha", &closing, &work_in_src());
    let landed = landed.unwrap();
    assert!(trunk_repo().lane_close(&store, &name("alpha"), 0).is_ok());
    store.set_lifecycle(&name("alpha"), LaneLifecycle::Closed, NOW).unwrap();
    let report = render_lane_land_outcome(&LaneLandOutcome {
        name: name("alpha"),
        landed,
        landed_changes: 1,
        gate: None,
        fanout: Vec::new(),
        closed: true,
    });
    assert!(report.contains("closed and retired"), "output: {report}");
    assert_eq!(store.get(&name("alpha")).unwrap().lifecycle.as_str(), "closed");
    let again = land(&trunk_repo(), &store, "alpha", &closing, &work_in_src()).1.err().unwrap();
    assert_eq!(again.code(), "lane-not-open");
}

#[test]
fn a_lane_is_not_closed_from_inside() {
    let mut inside = trunk_repo();
    inside.workspace_name = name("alpha");
    let mut closing = request(Some("work"));
    closing.close = true;
    let store = lanes(&[("alpha", "src")]);
    let (done, result) = land(&inside, &store, "alpha", &closing, &work_in_src());
    assert!(done.is_empty());
    assert_eq!(result.err().unwrap(), Error::LaneCloseFromInside("alpha".to_owned()));
}

#[test]
fn lane_land_gate_side_effects_do_not_land() {
    let repo = gated_repo("echo artifact > build-output.bin");
    let store = lanes(&[("alpha", "src")]);
    let (done, landed) =
        land(&repo, &store, "alpha", &request(Some("gated work")), &work_in_src());
    assert_eq!(landed.unwrap().commit_id, "t1");
    let at = |step: &str| done.iter().position(|d| d == step).unwrap();
    let gate = at("run echo artifact > build-output.bin");
    assert!(at("new @") < gate);
    assert!(gate < at("lock"));
    assert_eq!(at("rebase -s @ -d t1"), gate + 2);
}

#[test]
fn lane_sync_drop_unscoped_handles_fileset_metacharacters() {
    let store = lanes(&[("alpha", "src")]);
    let (done, outcome) = sync(
        &trunk_repo(),
        &store,
        true,
        &SyncAnswers {
            synced: true,
            conflicts: Vec::new(),
            changed: vec!["docs/a&b.txt", "src/lib.rs"],
        },
    );
    assert_eq!(done, ["snapshot", "restore --from h1 file:\"docs/a&b.txt\""]);
    assert_eq!(outcome.dropped, vec!["docs/a&b.txt".to_owned()]);
    assert!(render_lane_sync_outcomes(&vec![outcome]).contains("docs/a&b.txt"));
}

#[test]
fn conflicts_of_a_sync_are_resolved_by_policy() {
    let store = lanes(&[("alpha", "src")]);
    let mut repo = trunk_repo();
    repo.config.lane.auto_resolve = true;
    repo.config.resolve =
        vec![ResolvePolicy { path: "CHANGELOG.md".to_owned(), strategy: ResolveStrategy::Union }];
    let answers = SyncAnswers {
        synced: false,
        conflicts: vec![rev("c1", "entry")],
        changed: Vec::new(),
    };
    let (done, outcome) = sync(&repo, &store, false, &answers);
    assert!(done.contains(&"policies".to_owned()));
    assert!(outcome.conflicts.is_empty());
    let (done, outcome) = sync(&trunk_repo(), &store, false, &answers);
    assert!(!done.contains(&"policies".to_owned()));
    assert_eq!(outcome.conflicts.len(), 1);
}

#[test]
fn a_lane_without_a_workspace_is_not_synced() {
    let store = lanes(&[("alpha", "src")]);
    let facts = SyncFacts {
        workspace_exists: Some(false),
        recovered_stale: None,
        synced: None,
        rebased: false,
        refreshed: false,
        conflicts: None,
        policies_applied: false,
        changed: None,
        dropped: false,
    };
    match trunk_repo().sync_one(&store.records[0], "h1", true, &facts) {
        SyncStep::Done(outcome) => assert_eq!(
            render_lane_sync_outcomes(&vec![outcome]),
            "\u{00b7} alpha  workspace missing (gc?)\n"
        ),
        _ => panic!("nothing is left to do"),
    }
    assert_eq!(render_lane_sync_outcomes(&Vec::new()), "no open lanes to sync\n");
}

#[test]
fn lane_land_leaves_peers_fresh_without_divergence() {
    let (done, entry) = ripple("beta", "t1", false, 0);
    assert_eq!(done[1], "rebase -b \"beta\"@ -d t1");
    assert_eq!(done[2], "workspace update-stale");
    assert_eq!(done.len(), 3);
    assert_eq!(entry.conflicts, 0);
    let (done, entry) = ripple("beta", "t1", true, 0);
    assert!(done.is_empty());
    assert!(!entry.rebased);
}

#[test]
fn a_failed_ripple_is_reported() {
    let facts = PeerFacts {
        workspace_exists: Some(true),
        current: Some(false),
        snapshotted: true,
        rebased: false,
        recovered: false,
        conflicts: None,
        error: Some("no space".to_owned()),
    };
    match fan_out_peer(&name("beta"), "t1", &facts) {
        PeerStep::Done(entry) => {
            assert_eq!(entry.error, Some("no space".to_owned()));
            let report = render_lane_land_outcome(&LaneLandOutcome {
                name: name("alpha"),
                landed: rev("t1", "work"),
                landed_changes: 2,
                gate: None,
                fanout: vec![entry, ripple("gamma", "t1", false, 3).1, ripple("delta", "t1", true, 0).1],
                closed: false,
            });
            assert!(report.contains("    \u{26a0} beta  no space\n"), "{report}");
            assert!(report.contains("    \u{26c8} gamma  rebased, 3 conflict(s) \u{2014} theirs to resolve, today not merge-day\n"), "{report}");
            assert!(report.contains("    \u{2600} delta  already current\n"), "{report}");
        }
        _ => panic!("nothing is left to do"),
    }
}

#[test]
fn lane_land_json_emits_machine_envelope_and_errors_carry_codes() {
    let command = Command::Lane(LaneCommand::Land {
        name: "alpha".to_owned(),
        message: Some("alpha work".to_owned()),
        no_gate: false,
        gate: None,
        allow_unscoped: false,
        close: false,
        json: true,
    });
    assert_eq!(machine_context(&command), Some("lane land"));
    let Action::LaneLand { name: lane, request, json } = dispatch(command).unwrap() else {
        panic!("lane land")
    };
    assert!(json);
    let store = lanes(&[("alpha", "src")]);
    assert!(land(&trunk_repo(), &store, &lane, &request, &work_in_src()).1.is_ok());

    let mut landed = work_in_src();
    landed.empty = true;
    let error = land(&trunk_repo(), &store, &lane, &request, &landed).1.err().unwrap();
    assert_eq!(error.code(), "lane-nothing-to-land");
    assert!(render_domain_error(&error).starts_with("error[lane-nothing-to-land]:"));
}

#[test]
fn lane_land_allow_unscoped_and_gate_override() {
    let store = lanes(&[("alpha", "src")]);
    let mut answers = work_in_src();
    answers.changed = vec!["docs/out.txt", "src/alpha.txt"];
    answers.gate_passes = false;
    let mut wanted = request(Some("alpha work"));
    wanted.allow_unscoped = true;
    wanted.gate_override = Some("false".to_owned());
    let error = land(&trunk_repo(), &store, "alpha", &wanted, &answers).1.err().unwrap();
    assert_eq!(error.code(), "gate-failed");

    let error = land(&trunk_repo(), &store, "alpha", &request(Some("alpha work")), &answers)
        .1
        .err()
        .unwrap();
    assert!(render_domain_error(&error).contains("error[lane-unscoped-changes]"));

    answers.gate_passes = true;
    wanted.gate_override = Some("true".to_owned());
    let (done, landed) = land(&trunk_repo(), &store, "alpha", &wanted, &answers);
    assert!(landed.is_ok());
    assert!(done.contains(&"run true".to_owned()));
}

#[test]
fn a_skipped_gate_is_not_run() {
    let repo = gated_repo("cargo test");
    let mut skipping = request(Some("work"));
    skipping.no_gate = true;
    skipping.gate_override = Some("make".to_owned());
    assert_eq!(repo.landing_gate(&skipping), None);
    skipping.no_gate = false;
    assert_eq!(repo.landing_gate(&skipping), Some("make".to_owned()));
    assert_eq!(repo.landing_gate(&request(None)), Some("cargo test".to_owned()));
}

#[test]
fn a_moved_target_is_refused() {
    let mut answers = work_in_src();
    answers.head_at_lock = "h9";
    for repo in [trunk_repo(), bookmark_repo()] {
        assert_eq!(
            refusal(&repo, &answers),
            Error::LaneTrunkMoved {
                lane: "alpha".to_owned(),
                expected: "h0".to_owned(),
                found: "h9".to_owned(),
            }
        );
    }
}

#[test]
fn dirt_in_the_trunk_blocks_a_landing_of_the_same_paths() {
    let mut answers = work_in_src();
    answers.trunk_dirty = vec!["notes.txt", "src/wip.rs"];
    assert_eq!(
        refusal(&trunk_repo(), &answers),
        Error::LaneTrunkDirtyInScope {
            lane: "alpha".to_owned(),
            paths: "src/wip.rs".to_owned(),
        }
    );
    answers.trunk_dirty = vec!["notes.txt"];
    let store = lanes(&[("alpha", "src")]);
    let work = request(Some("work"));
    assert!(land(&trunk_repo(), &store, "alpha", &work, &answers).1.is_ok());
    answers.trunk_dirty = vec!["src/wip.rs"];
    assert!(land(&bookmark_repo(), &store, "alpha", &work, &answers).1.is_ok());
}

#[test]
fn a_landed_head_has_a_message_and_one_parent() {
    let store = lanes(&[("alpha", "src")]);
    let error = land(&trunk_repo(), &store, "alpha", &request(None), &work_in_src())
        .1
        .err()
        .unwrap();
    assert_eq!(error, Error::LaneNeedsMessage("alpha".to_owned()));

    let mut parked = work_in_src();
    parked.empty = true;
    parked.parents = vec![("w1", "done")];
    let (done, landed) = land(&trunk_repo(), &store, "alpha", &request(None), &parked);
    assert!(landed.is_ok());
    assert!(!done.iter().any(|d| d.starts_with("describe") || d.starts_with("new")), "{done:?}");

    parked.parents = vec![("w1", "")];
    let (done, landed) = land(&trunk_repo(), &store, "alpha", &request(Some("late")), &parked);
    assert!(landed.is_ok());
    assert!(done.contains(&"describe -r w1 -m late".to_owned()), "{done:?}");

    parked.parents = vec![("w1", "a"), ("w2", "b")];
    assert_eq!(
        refusal(&trunk_repo(), &parked),
        Error::LaneTrunkNotReady {
            trunk: "default".to_owned(),
            reason: "lane working copy has multiple parents".to_owned(),
        }
    );
}

#[test]
fn a_lane_without_a_place_does_not_land() {
    let mut answers = work_in_src();
    answers.lane_root = false;
    assert_eq!(
        refusal(&trunk_repo(), &answers),
        Error::LaneWorkspaceMissing("alpha".to_owned())
    );
    let mut answers = work_in_src();
    answers.pinned = Vec::new();
    assert_eq!(
        refusal(&trunk_repo(), &answers),
        Error::LaneWorkspaceMissing("alpha".to_owned())
    );
    let (_, result) =
        land(&trunk_repo(), &lanes(&[]), "alpha", &request(None), &work_in_src());
    assert_eq!(result.err().unwrap(), Error::LaneNotFound("alpha".to_owned()));
}
