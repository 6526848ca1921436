use jj_navi::abandon::{
    abandon_step, render_abandon, render_abandon_closing, AbandonFacts, AbandonStep,
    LandingTarget,
};
use jj_navi::cli::{
    dispatch, lock_scope, machine_context, Action, Command, LaneCommand, LockScope,
};
use jj_navi::commands::{
    abandon_prompt, confirmed, exec_root, exit_code, gc_step, merge_report, merge_request,
    merge_source, new_commits, remove_prompt, render_config, render_lane_close, render_remove,
    remove_step, render_write_set, tidy_gc, tidy_phases, GcStep, RemoveFacts, RemoveStep, TidyPhase,
};
use jj_navi::config::repo_config_path;
use jj_navi::directive::{cd_directive, escape_shell_single_quotes, harness_line};
use jj_navi::error::Error;
use jj_navi::init::{
    bookmark_line, bookmark_request, config_line, create_bookmark, ensure_jj_gitignored,
    ignore_line, init_config, init_step, should_write_config, IgnoreAnswer, IgnoreStep, InitFacts,
    InitStep,
};
use jj_navi::state::{parse_workspace_name, RepoStateFile, RepoStateStore};
use jj_navi::storage::{
    lock_step, lock_timeout, temp_file_name, LockAttempt, LockStep, DEFAULT_LOCK_TIMEOUT_MILLIS,
};
use jj_navi::switch::{resolve_workspace_alias, switch_step, AliasFacts, SwitchStep};
use jj_navi::types::{
    LaneGcPlan, LaneLifecycle, LanePath, LaneRev, RepoConfig, ResolvePolicy, ResolveStrategy,
    WorkspaceName,
};

fn name(value: &str) -> WorkspaceName {
    WorkspaceName::new(value.to_owned()).unwrap()
}

fn rev(commit: &str, message: &str) -> LaneRev {
    LaneRev {
        commit_id: commit.to_owned(),
        change_id: format!("change-{commit}"),
        message: message.to_owned(),
    }
}

fn text(value: &str) -> Option<String> {
    Some(value.to_owned())
}

fn engine(message: &str) -> Error {
    Error::Engine { message: message.to_owned() }
}

fn plan(ghosts: &[&str], orphans: &[&str], prunable: &[&str]) -> LaneGcPlan {
    let names = |values: &[&str]| values.iter().map(|v| name(v)).collect();
    LaneGcPlan {
        ghost_workspaces: names(ghosts),
        orphaned_lanes: names(orphans),
        prunable_lanes: names(prunable),
    }
}

#[test]
fn config_show_reports_effective_config() {
    let command = Command::ConfigShow { json: true };
    let Action::ConfigShow { json } = dispatch(command).unwrap() else { panic!("config show") };
    assert!(json);
    let config = RepoConfig::default();
    assert_eq!(config.lane.trunk.as_str(), "default");
    assert_eq!(
        render_config("/s/navi/config.toml", false, &config),
        vec![
            "config: /s/navi/config.toml (defaults; not written yet)",
            "workspace_template = \"../{repo}.{workspace}\"",
            "[lane]",
            "trunk = \"default\"",
            "# gate = (none configured)",
            "sparse = false",
            "context_paths = []",
        ]
    );
    let mut config = RepoConfig::default();
    config.lane.gate = text("echo \"hi\"");
    config.lane.sparse = true;
    config.lane.context_paths = vec![LanePath::new("a".to_owned()).unwrap()];
    let lines = render_config("/c", true, &config);
    assert_eq!(lines[0], "config: /c (exists)");
    assert_eq!(lines[4], "gate = \"echo \\\"hi\\\"\"");
    assert_eq!(lines[5], "sparse = true");
    assert_eq!(lines[6], "context_paths = [\"a\"]");
}

#[test]
fn only_yes_confirms() {
    assert_eq!(confirmed(" yes\n"), Ok(()));
    for answer in ["", "y", "YES", "yes please", "no"] {
        assert_eq!(confirmed(answer), Err(Error::RemoveCancelled));
    }
    assert_eq!(
        abandon_prompt(&name("a")),
        "This will archive and discard lane 'a' and delete its workspace directory."
    );
    assert_eq!(
        remove_prompt(&name("a"), "/r", &text("/d"))[2],
        "Unlanded changes archived to: /d"
    );
    assert_eq!(
        remove_prompt(&name("a"), "/r", &None),
        vec![
            "This will permanently remove workspace 'a'.",
            "Directory to delete: /r",
            "The workspace has no working-copy changes.",
        ]
    );
    assert_eq!(
        render_remove(&name("a"), "/r", &text("/d")),
        vec![
            "forgot workspace 'a'",
            "deleted workspace directory '/r'",
            "archived working-copy diff to '/d'",
        ]
    );
    assert_eq!(render_remove(&name("a"), "/r", &None).len(), 2);
}

#[test]
fn exit_codes_are_handed_on() {
    assert_eq!(exit_code(Some(0)), 0);
    assert_eq!(exit_code(Some(255)), 255);
    assert_eq!(exit_code(Some(256)), 1);
    assert_eq!(exit_code(Some(-1)), 1);
    assert_eq!(exit_code(None), 1);
}

#[test]
fn raw_commands_run_in_a_workspace() {
    assert_eq!(exec_root("/here", None, "/there", false).unwrap(), "/here");
    assert_eq!(exec_root("/here", Some(&name("a")), "/there", true).unwrap(), "/there");
    assert_eq!(
        exec_root("/here", Some(&name("a")), "/there", false).unwrap_err(),
        Error::WorkspaceDirectoryUnavailable {
            workspace: "a".to_owned(),
            path: "/there".to_owned(),
        }
    );
}

#[test]
fn collections_are_confirmed() {
    let one = plan(&["g"], &[], &[]);
    assert_eq!(gc_step(&one, false, true), GcStep::Report);
    assert_eq!(gc_step(&plan(&[], &[], &[]), true, true), GcStep::Report);
    assert_eq!(gc_step(&one, true, true), GcStep::Apply);
    assert_eq!(
        gc_step(&plan(&["g"], &["a", "b"], &[]), true, false),
        GcStep::Confirm(
            "This will forget 1 ghost workspace(s), abandon 2 orphaned lane(s), and prune 0 retired record(s)."
                .to_owned()
        )
    );
    assert_eq!(tidy_gc(&one, false, false), Ok(false));
    assert_eq!(tidy_gc(&one, true, true), Ok(true));
    assert_eq!(
        tidy_gc(&one, true, false),
        Err(engine(
            "tidy --apply would forget 1 ghost workspace(s) and abandon 0 orphaned lane(s)\nhint: rerun with --yes to confirm"
        ))
    );
}

#[test]
fn tidying_resolves_before_it_heals() {
    let mut config = RepoConfig::default();
    let phases = |second: TidyPhase| {
        vec![TidyPhase::Gc, second, TidyPhase::Heal, TidyPhase::Tripwire]
    };
    assert_eq!(tidy_phases(&config), phases(TidyPhase::NoPolicies));
    config.resolve =
        vec![ResolvePolicy { path: "LOG".to_owned(), strategy: ResolveStrategy::Union }];
    assert_eq!(tidy_phases(&config), phases(TidyPhase::Resolve));
}

#[test]
fn merges_duplicate_work_onto_the_target() {
    let (a, b) = (name("a"), name("b"));
    assert_eq!(
        merge_source(Some(&a), &a, &None).unwrap_err(),
        Error::MergeSameWorkspace("a".to_owned())
    );
    let revset = merge_source(Some(&a), &b, &None).unwrap().unwrap();
    assert_eq!(revset, "(\"b\"@..\"a\"@) ~ empty()");
    assert_eq!(merge_source(Some(&a), &b, &text("x::")).unwrap(), text("x::"));
    assert_eq!(merge_source(None, &b, &None).unwrap(), None);
    assert_eq!(
        merge_request("a", &b, &revset, &Vec::new()).unwrap_err(),
        Error::MergeSourceEmpty { source_workspace: "a".to_owned(), target: "b".to_owned() }
    );
    let selected = vec![rev("s1", "one")];
    let request = merge_request("a", &b, &revset, &selected).unwrap();
    assert_eq!(request.args[0], "duplicate");
    assert!(request.args.contains(&revset));
    assert!(request.args.contains(&"\"b\"@".to_owned()));
    let new = new_commits(
        &vec![rev("c1", ""), rev("c2", "")],
        &vec![rev("c2", ""), rev("d1", ""), rev("d2", "")],
    );
    assert_eq!(new, vec!["d1", "d2"]);
    let report = merge_report(Some(&a), &b, &revset, &selected, &new, &new);
    assert_eq!(report.source, text("a"));
    assert_eq!(report.revisions[0].message, "one");
    assert_eq!(report.duplicated_heads, new);
}

#[test]
fn lane_reports() {
    let paths = vec![
        LanePath::new("docs".to_owned()).unwrap(),
        LanePath::new("src".to_owned()).unwrap(),
    ];
    assert_eq!(render_write_set(&name("a"), &paths), "lane 'a' write-set: docs, src");
    assert_eq!(render_lane_close(&name("a"), "/r"), vec!["closed lane 'a'", "  removed: /r"]);
}

#[test]
fn bulk_abandon_passes_every_guard() {
    let mut facts = AbandonFacts {
        selected: None,
        working_copy_hits: None,
        target: None,
        target_hits: None,
    };
    let AbandonStep::Select(request) = abandon_step("x::", true, &facts) else {
        panic!("select first")
    };
    assert_eq!(request.args[3], "x::");
    facts.selected = Some(vec![rev("a", "one"), rev("b", "")]);
    let AbandonStep::FindWorkingCopies(request) = abandon_step("x::", true, &facts) else {
        panic!("then look for working copies")
    };
    assert_eq!(request.args[3], "(x::) & (working_copies() | ::working_copies())");
    facts.working_copy_hits = Some(Vec::new());
    assert!(matches!(abandon_step("x::", true, &facts), AbandonStep::ResolveTarget));
    facts.target = Some(Some(LandingTarget { label: "main".to_owned(), head: "h".to_owned() }));
    let AbandonStep::FindMainline(request) = abandon_step("x::", true, &facts) else {
        panic!("then look at the mainline")
    };
    assert_eq!(request.args[3], "(x::) & ::h");
    facts.target_hits = Some(Vec::new());
    assert!(matches!(abandon_step("x::", false, &facts), AbandonStep::Plan));
    let AbandonStep::Abandon(request) = abandon_step("x::", true, &facts) else {
        panic!("then abandon")
    };
    assert_eq!(request.args.last().unwrap(), "a | b");
    facts.target = Some(None);
    facts.target_hits = None;
    assert!(matches!(abandon_step("x::", true, &facts), AbandonStep::Abandon(_)));
}

#[test]
fn bulk_abandon_is_refused() {
    let refused = |facts: AbandonFacts| match abandon_step("x", true, &facts) {
        AbandonStep::Refuse(error) => error.message(),
        _ => panic!("refused"),
    };
    let facts = |selected, hits, target_hits| AbandonFacts {
        selected: Some(selected),
        working_copy_hits: Some(hits),
        target: Some(Some(LandingTarget { label: "main".to_owned(), head: "h".to_owned() })),
        target_hits: Some(target_hits),
    };
    let hit = || vec![rev("a", "")];
    assert!(refused(facts(Vec::new(), Vec::new(), Vec::new()))
        .contains("revset 'x' selects no commits"));
    assert!(refused(facts(hit(), hit(), Vec::new()))
        .contains("in a live working copy's chain (for example a)"));
    assert!(refused(facts(hit(), Vec::new(), hit()))
        .contains("includes commits in main's ancestry (for example a)"));
}

#[test]
fn long_abandons_are_cut() {
    let many: Vec<LaneRev> = (0..12).map(|i| rev(&format!("c{i}"), "work")).collect();
    let lines = render_abandon("x", &many, false);
    assert_eq!(lines[0], "would abandon 12 commit(s) selected by 'x'");
    assert_eq!(lines[1], "  c0  work");
    assert_eq!(lines.len(), 12);
    assert_eq!(lines[11], "  ... and 2 more");
    assert_eq!(
        render_abandon("x", &vec![rev("c", "")], true),
        vec!["abandoning 1 commit(s) selected by 'x'", "  c  (no description)"]
    );
    assert_eq!(
        render_abandon_closing(2, true)[1],
        "abandoned 2 commit(s) in one operation; jj op undo restores them"
    );
    assert_eq!(render_abandon_closing(2, false), vec!["", "plan only; rerun with --apply"]);
}

#[test]
fn an_existing_config_is_not_rewritten() {
    let mut config = RepoConfig::default();
    assert_eq!(should_write_config(false, "/c", &config, &text("main")), Ok(true));
    assert_eq!(should_write_config(true, "/c", &config, &None), Ok(false));
    assert_eq!(
        should_write_config(true, "/c", &config, &text("main")),
        Err(engine(
            "config already exists at /c\nhint: set [lane] target = \"main\" there yourself; init never rewrites an existing config"
        ))
    );
    config.lane.target = text("main");
    assert_eq!(should_write_config(true, "/c", &config, &text("main")), Ok(false));
    let plain = init_config(&config, &None);
    assert_eq!(
        init_config(&config, &text("main")),
        plain + "\n[lane]\ntarget = \"main\"\n"
    );
    assert_eq!(config_line(true, "/c"), "config: wrote scaffold at /c");
    assert_eq!(config_line(false, "/c"), "config: already exists at /c");
}

#[test]
fn a_missing_bookmark_is_created() {
    assert_eq!(bookmark_request("main").args[3], "present(\"main\")");
    let request = create_bookmark("main", &Vec::new()).unwrap();
    assert_eq!(request.args.join(" "), "bookmark create main -r @-");
    assert_eq!(create_bookmark("main", &vec![rev("a", "")]), None);
    assert_eq!(bookmark_line(true, "main"), "bookmark: created 'main' at @-");
    assert_eq!(bookmark_line(false, "main"), "bookmark: 'main' already exists");
}

#[test]
fn jj_state_is_ignored_once() {
    assert_eq!(ensure_jj_gitignored(false, ""), IgnoreStep::NotColocated);
    assert_eq!(ensure_jj_gitignored(true, ""), IgnoreStep::Write(".jj/\n".to_owned()));
    assert_eq!(
        ensure_jj_gitignored(true, "target"),
        IgnoreStep::Write("target\n.jj/\n".to_owned())
    );
    for contents in ["target\n.jj/\n", " .jj \n", "/.jj", "/.jj/\nx"] {
        assert_eq!(ensure_jj_gitignored(true, contents), IgnoreStep::AlreadyIgnored);
    }
    assert_eq!(ignore_line(&IgnoreStep::NotColocated), None);
    assert_eq!(ignore_line(&IgnoreStep::Write(String::new())), text("gitignore: added .jj/"));
    assert_eq!(
        ignore_line(&IgnoreStep::AlreadyIgnored),
        text("gitignore: .jj/ already ignored")
    );
}

#[test]
fn flags_are_checked_before_a_repo_is_opened() {
    let heal = |limit: usize| Command::Heal {
        changes: Vec::new(),
        mine: false,
        apply: true,
        limit,
        prefer_content: false,
        json: true,
    };
    assert_eq!(machine_context(&heal(1)), Some("heal"));
    assert!(matches!(dispatch(heal(1)), Ok(Action::Heal(_))));
    assert_eq!(dispatch(heal(0)).err().unwrap(), engine("--limit must be at least 1"));
    assert_eq!(
        dispatch(Command::Exec { workspace: None, arg_count: 0 }).err().unwrap(),
        engine("exec requires a command: navi exec -- <jj args...>")
    );
    assert!(matches!(
        dispatch(Command::Resolve { union: text("LOG"), apply: false, json: false }),
        Ok(Action::ResolveUnion { .. })
    ));
    assert!(matches!(
        dispatch(Command::Resolve { union: None, apply: false, json: false }),
        Ok(Action::ResolvePolicies { .. })
    ));
    let list = |lifecycle: Option<String>| {
        Command::Lane(LaneCommand::List {
            json: true,
            compact: false,
            lifecycle,
            no_snapshot: true,
        })
    };
    assert_eq!(machine_context(&list(None)), None);
    assert!(matches!(
        dispatch(list(text("closed"))),
        Ok(Action::LaneList { filter: Some(LaneLifecycle::Closed), snapshot: false, .. })
    ));
    assert!(dispatch(list(text("odd"))).is_err());
}

#[test]
fn sparse_wins_over_full() {
    let open = |sparse: bool, full: bool| {
        let command = Command::Lane(LaneCommand::Open {
            name: "a".to_owned(),
            paths: Vec::new(),
            allow_overlap: false,
            sparse,
            full,
            revision: None,
            json: false,
        });
        assert_eq!(machine_context(&command), None);
        match dispatch(command) {
            Ok(Action::LaneOpen { sparse, .. }) => sparse,
            _ => panic!("lane open"),
        }
    };
    assert_eq!(open(true, true), Some(true));
    assert_eq!(open(false, true), Some(false));
    assert_eq!(open(false, false), None);
}

#[test]
fn saved_state_loads_back() {
    let fresh = RepoStateStore::empty("/s");
    assert_eq!(fresh.path, "/s/navi/state.toml");
    assert!(fresh.previous_workspace().is_none());
    let mut store = RepoStateStore::save_previous_workspace(Ok(fresh), "/s", &name("alpha"));
    assert_eq!(store.tripwire(3), None);
    assert_eq!(store.tripwire(5), Some(2));
    assert_eq!(store.tripwire(4), None);
    assert_eq!(store.divergent_baseline(), Some(4));
    let loaded = RepoStateStore::load("/s", store.to_file()).unwrap();
    assert_eq!(loaded.previous_workspace().unwrap().as_str(), "alpha");
    assert_eq!(loaded.divergent_baseline(), Some(4));
    assert_eq!(repo_config_path("/s"), "/s/navi/config.toml");
}

#[test]
fn broken_state_is_replaced() {
    let broken = RepoStateStore::load(
        "/s",
        RepoStateFile { previous_workspace: text("a b"), divergent_baseline: Some(7) },
    );
    assert_eq!(
        broken.as_ref().err().unwrap(),
        &Error::InvalidRepoState {
            path: "/s/navi/state.toml".to_owned(),
            message: Error::InvalidWorkspaceName("a b".to_owned()).message(),
        }
    );
    let store = RepoStateStore::save_previous_workspace(broken, "/s", &name("alpha"));
    assert_eq!(store.divergent_baseline(), None);
    assert_eq!(store.previous_workspace().unwrap().as_str(), "alpha");
    assert_eq!(parse_workspace_name(text(""), "/p"), Ok(None));
    assert_eq!(parse_workspace_name(None, "/p"), Ok(None));
}

#[test]
fn locks_are_waited_for() {
    assert_eq!(temp_file_name("lanes.toml", 42), "lanes.toml.tmp.42");
    assert_eq!(lock_timeout(&None), DEFAULT_LOCK_TIMEOUT_MILLIS);
    assert_eq!(lock_timeout(&text("250")), 250);
    assert_eq!(lock_timeout(&text("soon")), DEFAULT_LOCK_TIMEOUT_MILLIS);
    assert_eq!(lock_step(LockAttempt::Acquired, "/l", 0, 10), LockStep::Proceed);
    assert_eq!(lock_step(LockAttempt::WouldBlock, "/l", 9, 10), LockStep::Retry);
    assert_eq!(
        lock_step(LockAttempt::WouldBlock, "/l", 10, 10),
        LockStep::GiveUp(Error::MutationLockTimeout { path: "/l".to_owned(), waited_ms: 10 })
    );
    assert_eq!(
        lock_step(LockAttempt::Failed("denied".to_owned()), "/l", 0, 10),
        LockStep::GiveUp(Error::Io("denied".to_owned()))
    );
}

#[test]
fn switches_are_written_for_the_shell() {
    assert_eq!(escape_shell_single_quotes("it's"), "it'\\''s");
    assert_eq!(cd_directive(&text("/d"), "/a b"), text("cd -- '/a b'\n"));
    assert_eq!(cd_directive(&None, "/a"), None);
    assert_eq!(harness_line(&text("/d"), "/a"), text("/a\n"));
    assert_eq!(harness_line(&None, "/a"), None);
}

#[test]
fn aliases_stand_for_workspaces() {
    let facts = |previous: Option<&str>, previous_exists: bool, primary: Option<&str>| AliasFacts {
        current: name("here"),
        previous: previous.map(name),
        previous_exists,
        primary: primary.map(name),
    };
    let all = facts(Some("before"), true, Some("default"));
    assert_eq!(resolve_workspace_alias("@", &all), Ok(name("here")));
    assert_eq!(resolve_workspace_alias("-", &all), Ok(name("before")));
    assert_eq!(resolve_workspace_alias("^", &all), Ok(name("default")));
    assert_eq!(resolve_workspace_alias("other", &all), Ok(name("other")));
    assert_eq!(
        resolve_workspace_alias("-", &facts(None, true, None)),
        Err(Error::NoPreviousWorkspace)
    );
    assert_eq!(
        resolve_workspace_alias("-", &facts(Some("gone"), false, None)),
        Err(Error::PreviousWorkspaceNotFound("gone".to_owned()))
    );
    assert_eq!(
        resolve_workspace_alias("^", &facts(None, false, None)),
        Err(Error::PrimaryWorkspaceUnavailable)
    );
    assert_eq!(
        resolve_workspace_alias("a b", &all),
        Err(Error::InvalidWorkspaceName("a b".to_owned()))
    );
}

#[test]
fn workspaces_are_created_on_request() {
    let base = text("main");
    assert_eq!(switch_step("a", true, false, &None), Ok(SwitchStep::Enter));
    assert_eq!(switch_step("a", true, true, &None), Ok(SwitchStep::Enter));
    assert_eq!(switch_step("a", false, true, &base), Ok(SwitchStep::Create(text("main"))));
    assert_eq!(switch_step("a", false, false, &base), Err(Error::WorkspaceDoesNotExist));
    assert_eq!(
        switch_step("a", true, true, &base),
        Err(Error::WorkspaceExistsWithRevision { workspace: "a".to_owned() })
    );
    for alias in ["^", "@", "-"] {
        assert_eq!(switch_step(alias, true, false, &None), Ok(SwitchStep::Enter));
        assert_eq!(
            switch_step(alias, true, true, &None),
            Err(Error::ReservedSwitchTarget(alias.to_owned()))
        );
        assert_eq!(
            switch_step(alias, true, false, &base),
            Err(Error::ReservedSwitchTarget(alias.to_owned()))
        );
    }
}

#[test]
fn a_removal_archives_before_it_deletes() {
    let removed = |diff: &str, yes: bool| {
        let mut facts = RemoveFacts {
            diff: None,
            archived: false,
            confirmed: false,
            forgotten: false,
            deleted: false,
        };
        let mut done: Vec<String> = Vec::new();
        loop {
            let step = match remove_step(&name("a"), yes, &facts) {
                RemoveStep::AskDiff(jj) => {
                    facts.diff = text(diff);
                    jj.args.join(" ")
                }
                RemoveStep::Archive => {
                    facts.archived = true;
                    "archive".to_owned()
                }
                RemoveStep::Confirm => {
                    facts.confirmed = true;
                    "confirm".to_owned()
                }
                RemoveStep::Forget(jj) => {
                    facts.forgotten = true;
                    jj.args.join(" ")
                }
                RemoveStep::DeleteDirectory => {
                    facts.deleted = true;
                    "delete".to_owned()
                }
                RemoveStep::Done => return done,
            };
            done.push(step);
        }
    };
    assert_eq!(
        removed("+x\n", false),
        [
            "--ignore-working-copy diff --git -r \"a\"@",
            "archive",
            "confirm",
            "workspace forget a",
            "delete",
        ]
    );
    assert_eq!(removed(" \n", true)[1..], ["workspace forget a", "delete"]);
}

fn init_facts(config_present: bool) -> InitFacts {
    InitFacts {
        config_present,
        config_written: false,
        bookmarks: None,
        bookmark_created: false,
        ignore: None,
        ignore_written: false,
    }
}

#[test]
fn a_setup_goes_step_by_step() {
    let config = RepoConfig::default();
    let target = text("main");
    let mut facts = init_facts(false);
    let next = |facts: &InitFacts| init_step("/c", &config, &target, facts);
    match next(&facts) {
        InitStep::WriteConfig(contents) => assert_eq!(contents, init_config(&config, &target)),
        _ => panic!("the config file comes first"),
    }
    facts.config_written = true;
    assert!(matches!(next(&facts), InitStep::AskBookmark(_)));
    facts.bookmarks = Some(Vec::new());
    assert!(matches!(next(&facts), InitStep::CreateBookmark(_)));
    facts.bookmark_created = true;
    assert!(matches!(next(&facts), InitStep::CheckIgnore));
    facts.ignore = Some(IgnoreAnswer { colocated: true, contents: "target".to_owned() });
    match next(&facts) {
        InitStep::WriteIgnore(contents) => assert_eq!(contents, "target\n.jj/\n"),
        _ => panic!("the ignore file comes last"),
    }
    facts.ignore_written = true;
    assert!(matches!(next(&facts), InitStep::Done));
}

#[test]
fn a_refused_setup_touches_nothing() {
    let config = RepoConfig::default();
    let mut facts = init_facts(true);
    facts.bookmarks = Some(Vec::new());
    facts.ignore = Some(IgnoreAnswer { colocated: true, contents: String::new() });
    match init_step("/c", &config, &text("main"), &facts) {
        InitStep::Refuse(error) => assert_eq!(error.code(), "engine"),
        _ => panic!("the target differs"),
    }
}

#[test]
fn a_repo_that_is_set_up_stays_as_it_is() {
    let mut config = RepoConfig::default();
    config.lane.target = text("main");
    let mut facts = init_facts(true);
    facts.bookmarks = Some(vec![rev("c1", "")]);
    facts.ignore = Some(IgnoreAnswer { colocated: true, contents: "/.jj/\n".to_owned() });
    assert!(matches!(init_step("/c", &config, &text("main"), &facts), InitStep::Done));
    assert!(matches!(init_step("/c", &config, &None, &facts), InitStep::Done));
}

#[test]
fn writers_hold_the_lock_and_plans_do_not() {
    let sync = Action::LaneSync { name: None, drop_unscoped: false, json: false };
    assert_eq!(lock_scope(&sync), LockScope::Whole);
    assert_eq!(lock_scope(&Action::Exec { workspace: None }), LockScope::Whole);
    let gc = |apply| Action::LaneGc { apply, prune: false, yes: true, json: false };
    assert_eq!(lock_scope(&gc(true)), LockScope::Writes);
    assert_eq!(lock_scope(&gc(false)), LockScope::Never);
    assert_eq!(lock_scope(&Action::Skill), LockScope::Never);
}
