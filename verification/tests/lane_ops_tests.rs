use jj_navi::cli::{dispatch, machine_context, Action, Command, LaneCommand};
use jj_navi::commands::{parse_lifecycle_filter, shown_lanes};
use jj_navi::error::Error;
use jj_navi::jj::JjRequest;
use jj_navi::lane_ops::{
    ahead_request, behind_request, delete_failed, fork_request, lane_conflicts_request, open_step,
    scope_base, single_revision, unlanded_request, LaneLive, ListedWorkspace, NaviWorkspace,
    OpenFacts, OpenStep, RetireStep,
};
use jj_navi::lane_render::{
    lane_list_json, render_lane_abandon_outcome, render_lane_gc, render_lane_list,
    render_lane_open_outcome,
};
use jj_navi::lane_rules::{check_overlap_excluding, path_in_scope, scoped_paths, unscoped_paths};
use jj_navi::lane_store::{serialize_record, LaneRecord, LaneStore};
use jj_navi::timestamp::Timestamp;
use jj_navi::types::{
    parse_lane_paths, LaneAbandonOutcome, LaneLifecycle, LanePath, LaneRev, RepoConfig,
    WorkspaceName,
};

const NOW: Timestamp = Timestamp { unix_nanos: 1_700_000_000_000_000_000, offset_seconds: 0 };

fn name(value: &str) -> WorkspaceName {
    WorkspaceName::new(value.to_owned()).unwrap()
}

fn paths(values: &[&str]) -> Vec<LanePath> {
    values.iter().map(|p| LanePath::new(p.to_string()).unwrap()).collect()
}

fn rev(commit: &str) -> LaneRev {
    LaneRev {
        commit_id: commit.to_owned(),
        change_id: format!("change-{commit}"),
        message: format!("message of {commit}"),
    }
}

fn repo() -> NaviWorkspace {
    NaviWorkspace {
        workspace_root: "/work/repo".to_owned(),
        workspace_name: name("default"),
        repo_storage_path: "/work/repo/.jj/repo".to_owned(),
        repo_name: "repo".to_owned(),
        config: RepoConfig::default(),
    }
}

fn bookmark_repo() -> NaviWorkspace {
    let mut repo = repo();
    repo.config.lane.target = Some("main".to_owned());
    repo
}

fn empty_store() -> LaneStore {
    LaneStore::empty("/work/repo/.jj/repo/navi/lanes.toml".to_owned())
}

fn open(store: &mut LaneStore, lane: &str, write_set: &[&str]) {
    repo()
        .lane_open(
            store,
            &name(lane),
            paths(write_set),
            false,
            None,
            false,
            rev("base"),
            &format!("/work/repo.{lane}"),
            NOW,
        )
        .unwrap();
}

fn live() -> LaneLive {
    LaneLive {
        workspace_exists: true,
        synced: true,
        ahead: 0,
        behind: 0,
        conflicts: 0,
        changed: Vec::new(),
    }
}

fn args(request: &JjRequest) -> Vec<&str> {
    request.args.iter().map(String::as_str).collect()
}

#[test]
fn lane_open_registers_write_set_and_reports_clear_weather() {
    let mut store = empty_store();
    open(&mut store, "alpha", &["src"]);

    let registry = serialize_record(&store.records[0], &store.path).unwrap();
    assert_eq!(registry.name, "alpha");
    assert_eq!(registry.paths, vec!["src".to_owned()]);
    assert_eq!(registry.lifecycle, "open");

    let listing = render_lane_list(&repo().lane_list(&store, &vec![live()]));
    assert!(listing.contains("alpha"), "listing: {listing}");
    assert!(listing.contains("synced"), "listing: {listing}");
    assert_eq!(listing, "\u{2600} alpha  [src]  synced, ahead 0\n");
}

#[test]
fn lane_open_refuses_write_set_overlap() {
    let mut store = empty_store();
    open(&mut store, "alpha", &["src"]);

    let beta = name("beta");
    let refusal = repo()
        .lane_open_check(&store, &beta, &paths(&["src/nested"]), false, false)
        .unwrap_err();
    assert!(refusal.message().contains("overlaps open lane 'alpha'"), "{refusal:?}");
    assert_eq!(
        refusal,
        Error::LaneOverlap {
            path: "src/nested".to_owned(),
            other: "alpha".to_owned(),
            other_path: "src".to_owned(),
        }
    );
    assert!(repo()
        .lane_open_check(&store, &beta, &paths(&["src/nested"]), true, false)
        .is_ok());
}

#[test]
fn lane_open_refuses_what_cannot_be_a_lane() {
    let store = empty_store();
    let repo = repo();
    assert_eq!(
        repo.lane_open_check(&store, &name("default"), &paths(&["src"]), false, false)
            .unwrap_err(),
        Error::LaneNameReserved("default".to_owned())
    );
    assert_eq!(
        repo.lane_open_check(&store, &name("a"), &Vec::new(), false, false).unwrap_err(),
        Error::InvalidLanePath("(lane requires at least one --path)".to_owned())
    );
    assert_eq!(
        repo.lane_open_check(&store, &name("a"), &paths(&["src"]), false, true).unwrap_err(),
        Error::LaneExists("a".to_owned())
    );
}

#[test]
fn a_refused_opening_leaves_the_registry_alone() {
    let mut store = empty_store();
    open(&mut store, "alpha", &["src"]);
    let before = store.records[0].name.clone();
    assert!(repo()
        .lane_open(
            &mut store,
            &name("beta"),
            paths(&["src"]),
            false,
            None,
            false,
            rev("b"),
            "/x",
            NOW
        )
        .is_err());
    assert_eq!(store.records.len(), 1);
    assert_eq!(store.records[0].name, before);
}

#[test]
fn lane_open_json_emits_machine_envelope_on_stdout() {
    let command = Command::Lane(LaneCommand::Open {
        name: "alpha".to_owned(),
        paths: vec!["src".to_owned()],
        allow_overlap: false,
        sparse: false,
        full: false,
        revision: None,
        json: true,
    });
    assert_eq!(machine_context(&command), Some("lane open"));
    let Action::LaneOpen { name: lane, paths: given, allow_overlap, sparse, revision, json } =
        dispatch(command).unwrap()
    else {
        panic!("lane open")
    };
    assert!(json && !allow_overlap && sparse.is_none() && revision.is_none());

    let mut store = empty_store();
    let plan = repo()
        .lane_open(
            &mut store,
            &WorkspaceName::new(lane).unwrap(),
            parse_lane_paths(&given).unwrap(),
            allow_overlap,
            sparse,
            false,
            rev("base"),
            "/work/repo.alpha",
            NOW,
        )
        .unwrap();
    assert_eq!(plan.outcome.name.as_str(), "alpha");
    assert_eq!(plan.outcome.paths[0].as_str(), "src");
    assert_eq!(
        render_lane_open_outcome(&plan.outcome),
        "opened lane 'alpha'\n  base: change change-base  commit base  message of base\n  write-set: src\n  next: cd /work/repo.alpha\n"
    );
}

#[test]
fn repo_flag_targets_a_repo_from_outside_it() {
    let mut elsewhere = repo();
    elsewhere.workspace_root = "/outside/checkout".to_owned();
    let mut store = empty_store();
    let plan = elsewhere
        .lane_open(
            &mut store,
            &name("alpha"),
            paths(&["src"]),
            false,
            None,
            false,
            rev("base"),
            "/outside/checkout.alpha",
            NOW,
        )
        .unwrap();
    assert_eq!(plan.outcome.name.as_str(), "alpha");
    assert_eq!(plan.outcome.path, "/outside/checkout.alpha");
    assert_eq!(*args(&plan.add).last().unwrap(), "/outside/checkout.alpha");
}

#[test]
fn sparse_lane_materializes_only_the_write_set() {
    let mut repo = repo();
    repo.config.lane.context_paths = paths(&["AGENTS.md", "src"]);
    let mut store = empty_store();
    let plan = repo
        .lane_open(
            &mut store,
            &name("alpha"),
            paths(&["src"]),
            false,
            Some(true),
            false,
            rev("base"),
            "/work/repo.alpha",
            NOW,
        )
        .unwrap();
    assert_eq!(
        args(&plan.add),
        [
            "workspace",
            "add",
            "--name",
            "alpha",
            "-r",
            "base",
            "--sparse-patterns",
            "empty",
            "/work/repo.alpha"
        ]
    );
    assert_eq!(
        args(plan.materialize.as_ref().unwrap()),
        ["sparse", "set", "--add", ".gitignore", "--add", "AGENTS.md", "--add", "src"]
    );
    assert!(plan.outcome.sparse);
    assert!(render_lane_open_outcome(&plan.outcome).starts_with("opened lane 'alpha' (sparse)\n"));
}

#[test]
fn full_lanes_materialize_nothing_extra() {
    let mut sparse_by_default = repo();
    sparse_by_default.config.lane.sparse = true;
    let mut store = empty_store();
    let plan = sparse_by_default
        .lane_open(
            &mut store,
            &name("alpha"),
            paths(&["src"]),
            false,
            Some(false),
            false,
            rev("base"),
            "/r",
            NOW,
        )
        .unwrap();
    assert!(plan.materialize.is_none());
    assert!(args(&plan.add).contains(&"full"));
}

#[test]
fn lane_open_with_revision_bases_on_that_revision() {
    let repo = repo();
    assert_eq!(
        args(&repo.base_request(&Some("alpha@".to_owned()), "head"))[3],
        "alpha@"
    );
    assert_eq!(args(&repo.base_request(&None, "head"))[3], "head");
    let base = single_revision("alpha@", vec![rev("a1"), rev("a2")]).unwrap();
    assert_eq!(base.commit_id, "a1");
    assert_eq!(
        single_revision("alpha@", Vec::new()).unwrap_err(),
        Error::JjCommandFailed {
            command: "jj log -r alpha@".to_owned(),
            stderr: "revision not found".to_owned(),
        }
    );
}

#[test]
fn missing_target_bookmark_is_a_coded_error() {
    let repo = bookmark_repo();
    assert_eq!(args(&repo.target_request())[3], "present(\"main\")");
    let error = repo.resolve_target(true, &Vec::new()).unwrap_err();
    assert_eq!(error.code(), "target-bookmark-missing");
    assert_eq!(repo.resolve_target(false, &vec![rev("m")]).unwrap(), "m");
    assert_eq!(
        repo.resolve_target(true, &vec![rev("m"), rev("n")]).unwrap_err().kind(),
        jj_navi::error::ErrorKind::LaneTrunkNotReady
    );
}

#[test]
fn the_trunk_has_one_parent() {
    let repo = repo();
    assert_eq!(args(&repo.target_request())[3], "parents(\"default\"@)");
    assert_eq!(repo.resolve_target(true, &vec![rev("t")]).unwrap(), "t");
    assert_eq!(
        repo.resolve_target(false, &vec![rev("t")]).unwrap_err(),
        Error::LaneTrunkMissing("default".to_owned())
    );
    assert_eq!(
        repo.resolve_target(true, &vec![rev("t"), rev("u")]).unwrap_err(),
        Error::LaneTrunkNotReady {
            trunk: "default".to_owned(),
            reason: "trunk working copy has 2 parents; expected exactly one".to_owned(),
        }
    );
}

#[test]
fn claims_extend_the_write_set() {
    let mut store = empty_store();
    open(&mut store, "alpha", &["src"]);
    open(&mut store, "beta", &["docs"]);
    let merged = repo()
        .lane_claim(&mut store, &name("alpha"), &paths(&["assets", "src"]), false)
        .unwrap();
    assert_eq!(merged, paths(&["assets", "src"]));
    assert_eq!(store.get(&name("alpha")).unwrap().paths, merged);
    assert_eq!(
        args(&repo().claim_request(&merged)),
        ["sparse", "set", "--add", "assets", "--add", "src"]
    );
    assert_eq!(
        repo()
            .lane_claim(&mut store, &name("alpha"), &paths(&["docs/x"]), false)
            .unwrap_err()
            .code(),
        "lane-overlap"
    );
    assert_eq!(store.get(&name("alpha")).unwrap().paths, merged);
    assert_eq!(
        repo().lane_claim(&mut store, &name("x"), &paths(&["y"]), false).unwrap_err(),
        Error::LaneNotFound("x".to_owned())
    );
}

#[test]
fn lane_release_shrinks_write_set_and_refuses_emptying() {
    let mut store = empty_store();
    open(&mut store, "alpha", &["src", "docs"]);

    let left = repo()
        .lane_release(&mut store, &name("alpha"), &paths(&["docs"]))
        .unwrap();
    assert_eq!(left, paths(&["src"]));
    assert_eq!(store.get(&name("alpha")).unwrap().paths, paths(&["src"]));

    let error = repo()
        .lane_release(&mut store, &name("alpha"), &paths(&["src"]))
        .unwrap_err();
    assert_eq!(error.code(), "lane-release-would-empty");
    assert_eq!(store.get(&name("alpha")).unwrap().paths, paths(&["src"]));
}

#[test]
fn lane_list_json_reports_weather() {
    let mut store = empty_store();
    open(&mut store, "alpha", &["src"]);
    let lanes = lane_list_json(&repo().lane_list(&store, &vec![live()]));
    assert_eq!(lanes.len(), 1);
    assert_eq!(lanes[0].name, "alpha");
    assert_eq!(lanes[0].weather, "clear");
    assert!(lanes[0].synced);
}

#[test]
fn retired_lanes_have_no_live_facts() {
    let mut store = empty_store();
    open(&mut store, "alpha", &["src"]);
    store.set_lifecycle(&name("alpha"), LaneLifecycle::Closed, NOW).unwrap();
    store.record_land(&name("alpha"), "head", &None, NOW).unwrap();
    let mut facts = live();
    facts.ahead = 3;
    facts.changed = vec!["rogue.txt".to_owned()];
    let rows = repo().lane_list(&store, &vec![facts]);
    assert!(!rows[0].workspace_exists);
    assert!(!rows[0].synced);
    assert_eq!(rows[0].ahead, 0);
    assert!(rows[0].unscoped.is_empty());
    assert_eq!(rows[0].last_land, Some("head".to_owned()));
}

#[test]
fn lane_list_lifecycle_filters_rows() {
    let mut store = empty_store();
    open(&mut store, "alpha", &["src"]);
    open(&mut store, "beta", &["docs"]);
    store.set_lifecycle(&name("beta"), LaneLifecycle::Abandoned, NOW).unwrap();

    let filter = parse_lifecycle_filter(&Some("open".to_owned())).unwrap();
    let rows = repo().lane_list(&store, &vec![live(), live()]);
    let lanes = shown_lanes(rows, filter);
    assert_eq!(lanes.len(), 1);
    assert_eq!(lanes[0].name.as_str(), "alpha");

    assert_eq!(parse_lifecycle_filter(&None), Ok(None));
    assert_eq!(parse_lifecycle_filter(&Some("all".to_owned())), Ok(None));
    assert_eq!(
        parse_lifecycle_filter(&Some("odd".to_owned())).unwrap_err(),
        Error::Engine {
            message: "unknown --lifecycle 'odd'; use open, closed, abandoned, or all".to_owned()
        }
    );
    let all = shown_lanes(repo().lane_list(&store, &vec![live(), live()]), None);
    assert_eq!(all.len(), 2);
}

#[test]
fn lane_abandon_archives_the_diff() {
    let mut store = empty_store();
    open(&mut store, "alpha", &["src"]);
    let steps = repo()
        .lane_abandon(&store, &name("alpha"), true, "+doomed work\n", NOW)
        .unwrap();
    assert_eq!(
        steps,
        vec![
            RetireStep::Archive(
                "/work/repo/.jj/repo/navi/archive/alpha-2023-11-14T22-13-20Z.diff".to_owned()
            ),
            RetireStep::Forget(JjRequest::workspace_forget("alpha")),
            RetireStep::DeleteDirectory,
            RetireStep::Retire,
        ]
    );
    let report = render_lane_abandon_outcome(&LaneAbandonOutcome {
        name: name("alpha"),
        archive: Some("/a.diff".to_owned()),
        removed_directory: Some("/work/repo.alpha".to_owned()),
    });
    assert_eq!(
        report,
        "abandoned lane 'alpha'\n  archived diff: /a.diff\n  removed: /work/repo.alpha\n"
    );
}

#[test]
fn abandoning_without_work_archives_nothing() {
    let mut store = empty_store();
    open(&mut store, "alpha", &["src"]);
    let blank = repo().lane_abandon(&store, &name("alpha"), true, " \n", NOW).unwrap();
    assert_eq!(blank.len(), 3);
    assert_eq!(blank[0], RetireStep::Forget(JjRequest::workspace_forget("alpha")));
    let gone = repo().lane_abandon(&store, &name("alpha"), false, "+x", NOW).unwrap();
    assert_eq!(gone, vec![RetireStep::Retire]);
    assert_eq!(
        repo().lane_abandon(&store, &name("x"), true, "", NOW).unwrap_err(),
        Error::LaneNotFound("x".to_owned())
    );
}

#[test]
fn closing_needs_landed_work() {
    let mut store = empty_store();
    open(&mut store, "alpha", &["src"]);
    assert_eq!(
        repo().lane_close(&store, &name("alpha"), 2).unwrap_err(),
        Error::LaneNotLanded { lane: "alpha".to_owned() }
    );
    assert_eq!(
        repo().lane_close(&store, &name("alpha"), 0).unwrap(),
        vec![
            RetireStep::Forget(JjRequest::workspace_forget("alpha")),
            RetireStep::DeleteDirectory,
            RetireStep::Retire,
        ]
    );
    store.set_lifecycle(&name("alpha"), LaneLifecycle::Closed, NOW).unwrap();
    assert_eq!(
        repo().lane_close(&store, &name("alpha"), 0).unwrap_err(),
        Error::LaneNotOpen { name: "alpha".to_owned(), lifecycle: "closed".to_owned() }
    );
}

#[test]
fn lane_gc_collects_ghost_workspaces() {
    let listed = |n: &str, missing: bool| ListedWorkspace { name: name(n), missing };
    let mut store = empty_store();
    open(&mut store, "alpha", &["src"]);
    let workspaces =
        vec![listed("default", true), listed("ghost", true), listed("there", false)];
    let plan = repo().lane_gc_plan(&store, &workspaces, false);
    assert_eq!(plan.ghost_workspaces, vec![name("ghost")]);
    assert_eq!(plan.orphaned_lanes, vec![name("alpha")]);
    assert!(plan.prunable_lanes.is_empty());
    let text = render_lane_gc(&plan, false);
    assert!(text.contains("would forget ghost workspace 'ghost'"), "plan: {text}");
    assert!(text.ends_with("plan only; rerun with --apply\n"));
    assert_eq!(repo().gc_requests(&plan), vec![JjRequest::workspace_forget("ghost")]);
    repo().lane_gc_apply(&mut store, &plan, NOW).unwrap();
    assert_eq!(store.get(&name("alpha")).unwrap().lifecycle, LaneLifecycle::Abandoned);
    assert!(render_lane_gc(&plan, true).contains("forgot ghost workspace 'ghost'"));
}

#[test]
fn lane_gc_prune_drops_retired_records() {
    let mut store = empty_store();
    open(&mut store, "alpha", &["src"]);
    open(&mut store, "beta", &["docs"]);
    store.set_lifecycle(&name("alpha"), LaneLifecycle::Abandoned, NOW).unwrap();
    let workspaces = vec![ListedWorkspace { name: name("beta"), missing: false }];
    let plan = repo().lane_gc_plan(&store, &workspaces, true);
    assert_eq!(plan.prunable_lanes, vec![name("alpha")]);
    repo().lane_gc_apply(&mut store, &plan, NOW).unwrap();
    assert!(store.get(&name("alpha")).is_none());
    assert!(store.get(&name("beta")).is_some());
}

#[test]
fn an_empty_plan_collects_nothing() {
    let plan = repo().lane_gc_plan(&empty_store(), &Vec::new(), true);
    assert!(plan.is_empty());
    assert_eq!(
        render_lane_gc(&plan, false),
        "nothing to collect: no ghost workspaces, no orphaned lanes\n"
    );
}

#[test]
fn a_plan_for_an_unknown_lane_stops() {
    let mut plan = repo().lane_gc_plan(&empty_store(), &Vec::new(), false);
    plan.orphaned_lanes = vec![name("nobody")];
    assert_eq!(
        repo().lane_gc_apply(&mut empty_store(), &plan, NOW).unwrap_err(),
        Error::LaneNotFound("nobody".to_owned())
    );
}

#[test]
fn scopes_split_the_changed_paths() {
    let write_set = paths(&["src", "docs/a.md"]);
    let changed: Vec<String> =
        ["src/lib.rs", "docs/a.md", "docs/b.md", "rogue.txt"].map(str::to_owned).to_vec();
    assert!(path_in_scope("src/lib.rs", &write_set));
    assert!(!path_in_scope("srcs", &write_set));
    assert_eq!(unscoped_paths(&changed, &write_set), vec!["docs/b.md", "rogue.txt"]);
    assert_eq!(scoped_paths(&changed, &write_set), vec!["src/lib.rs", "docs/a.md"]);
}

#[test]
fn a_lane_does_not_overlap_itself() {
    let mut store = empty_store();
    open(&mut store, "alpha", &["src"]);
    assert!(check_overlap_excluding(&store, &name("alpha"), &paths(&["src"])).is_ok());
    assert!(check_overlap_excluding(&store, &name("beta"), &paths(&["src"])).is_err());
    store.set_lifecycle(&name("alpha"), LaneLifecycle::Closed, NOW).unwrap();
    assert!(check_overlap_excluding(&store, &name("beta"), &paths(&["src"])).is_ok());
}

#[test]
fn lanes_to_sync_are_open() {
    let mut store = empty_store();
    open(&mut store, "alpha", &["src"]);
    open(&mut store, "beta", &["docs"]);
    store.set_lifecycle(&name("beta"), LaneLifecycle::Closed, NOW).unwrap();
    let names = |lanes: Vec<&LaneRecord>| -> Vec<String> {
        lanes.iter().map(|l| l.name.as_str().to_owned()).collect()
    };
    assert_eq!(names(repo().lane_sync(&store, None).unwrap()), ["alpha"]);
    assert_eq!(names(repo().lane_sync(&store, Some(&name("alpha"))).unwrap()), ["alpha"]);
    assert_eq!(
        repo().lane_sync(&store, Some(&name("beta"))).unwrap_err().code(),
        "lane-not-open"
    );
}

#[test]
fn questions_about_a_lane() {
    let revset = |request: JjRequest| request.args[3].clone();
    assert_eq!(revset(ahead_request("h", "l")), "(h..l) ~ empty()");
    assert_eq!(revset(behind_request("h", "l")), "::h ~ ::l");
    assert_eq!(revset(lane_conflicts_request("h", "l")), "conflicts() & (::l ~ ::h)");
    assert_eq!(revset(fork_request("h", "l")), "heads(::h & ::l)");
    assert_eq!(revset(unlanded_request("h", "l")), "(::l ~ ::h) ~ empty()");
    assert_eq!(scope_base(&vec![rev("f"), rev("g")], "h"), "f");
    assert_eq!(scope_base(&Vec::new(), "h"), "h");
}

#[test]
fn roots_have_to_be_there() {
    let repo = repo();
    let alpha = name("alpha");
    assert_eq!(repo.existing_lane_root(&alpha, true, "/l", true).unwrap(), "/l");
    for (workspace, directory) in [(true, false), (false, true), (false, false)] {
        assert_eq!(
            repo.existing_lane_root(&alpha, workspace, "/l", directory).unwrap_err(),
            Error::LaneWorkspaceMissing("alpha".to_owned())
        );
    }
    assert_eq!(repo.trunk_root("/t", false).unwrap(), "/work/repo");
    let mut inside = repo;
    inside.workspace_name = name("alpha");
    assert_eq!(inside.trunk_root("/t", true).unwrap(), "/t");
    assert_eq!(
        inside.trunk_root("/t", false).unwrap_err(),
        Error::LaneTrunkMissing("default".to_owned())
    );
    assert_eq!(
        delete_failed(&alpha, "/l", "busy").kind(),
        jj_navi::error::ErrorKind::WorkspaceDirectoryDeleteAfterForgetFailed
    );
}

#[test]
fn lanes_are_registered_before_their_workspaces_exist() {
    let opened = |sparse: bool, fail_at: OpenStep| {
        let mut facts = OpenFacts {
            failed: false,
            registered: false,
            added: false,
            materialized: false,
            rolled_back: false,
        };
        let mut done = Vec::new();
        loop {
            let step = open_step(sparse, &facts);
            if step == fail_at {
                facts.failed = true;
            }
            match step {
                OpenStep::Done(_) => {
                    done.push(step);
                    return done;
                }
                OpenStep::Register => facts.registered = !facts.failed,
                OpenStep::Add => facts.added = !facts.failed,
                OpenStep::Materialize => facts.materialized = !facts.failed,
                OpenStep::RollBack => facts.rolled_back = true,
            }
            done.push(step);
        }
    };
    assert_eq!(
        opened(true, OpenStep::Done(false)),
        [OpenStep::Register, OpenStep::Add, OpenStep::Materialize, OpenStep::Done(true)]
    );
    assert_eq!(
        opened(false, OpenStep::Done(false)),
        [OpenStep::Register, OpenStep::Add, OpenStep::Done(true)]
    );
    assert_eq!(
        opened(true, OpenStep::Add),
        [OpenStep::Register, OpenStep::Add, OpenStep::RollBack, OpenStep::Done(false)]
    );
    assert_eq!(
        opened(true, OpenStep::Register),
        [OpenStep::Register, OpenStep::Done(false)]
    );
    assert_eq!(
        opened(true, OpenStep::Materialize),
        [OpenStep::Register, OpenStep::Add, OpenStep::Materialize, OpenStep::Done(false)]
    );
}
