use jj_navi::engine::{
    churn_cutoff, engine_error, reverse_hex, short_hex, CommitFacts, ConflictFacts,
    DivergentChange, DivergentSibling, Engine, OpChurn, OpProvenance, ProvenanceFacts,
    WorkingCopyFacts,
};
use jj_navi::error::Error;
use jj_navi::heal::{
    describe_sibling, heal_report, heal_request, plan_heal, plan_losers, render_closing,
    render_plan, validated_limit, HealCandidate, HealOptions, PlannedHeal, SiblingFacts,
};

fn empty_engine() -> Engine {
    Engine {
        username: "me".to_owned(),
        divergent: Vec::new(),
        provenance: Vec::new(),
        working_copies: Vec::new(),
        child_parents: Vec::new(),
        working_copy_ancestors: Vec::new(),
        conflicts: Vec::new(),
        op_ends: Vec::new(),
        heads: Vec::new(),
        commits: Vec::new(),
    }
}

fn commit(hex: &str, change: &str, description: &str) -> CommitFacts {
    CommitFacts {
        commit_hex: hex.to_owned(),
        change_hex: change.to_owned(),
        description: description.to_owned(),
        author_email: "a@example.com".to_owned(),
        committer_millis: 5,
    }
}

fn op(end_millis: i64, username: &str) -> OpProvenance {
    OpProvenance {
        op_id: format!("op{end_millis}"),
        end_millis,
        username: username.to_owned(),
        hostname: "host".to_owned(),
        description: "describe commit".to_owned(),
    }
}

fn sibling(id: &str, op: Option<OpProvenance>) -> DivergentSibling {
    DivergentSibling {
        commit_id: id.to_owned(),
        description: format!("work of {id}"),
        author_email: "a@example.com".to_owned(),
        committer_millis: 5,
        op,
        wc_of: Vec::new(),
        has_children: false,
        blocks_wc: false,
    }
}

fn candidate(change: &str, siblings: Vec<DivergentSibling>) -> HealCandidate {
    HealCandidate {
        change: DivergentChange { change_id: change.to_owned(), siblings },
        facts: Vec::new(),
    }
}

fn two(change: &str) -> HealCandidate {
    candidate(
        change,
        vec![
            sibling(&format!("{change}-new"), Some(op(9, "me"))),
            sibling(&format!("{change}-old"), Some(op(3, "me"))),
        ],
    )
}

fn options() -> HealOptions {
    HealOptions {
        changes: Vec::new(),
        mine: false,
        apply: false,
        limit: 10,
        prefer_content: false,
        json: false,
    }
}

fn reason(candidate: HealCandidate) -> String {
    let plan = plan_heal(&vec![candidate], &options(), "me");
    assert!(plan.planned.is_empty());
    plan.skipped[0].reason.clone()
}

#[test]
fn ids_are_shortened_and_reversed() {
    assert_eq!(short_hex("0123456789abcdef"), "0123456789ab");
    assert_eq!(short_hex("0123"), "0123");
    assert_eq!(reverse_hex("0f9a"), "zkqp");
}

#[test]
fn siblings_are_ranked_by_operation() {
    let mut engine = empty_engine();
    engine.divergent = vec![
        commit("aaaaaaaaaaaaaaaa", "00", "old"),
        commit("bbbbbbbbbbbbbbbb", "00", "new"),
        commit("cccccccccccccccc", "01", "other"),
    ];
    engine.provenance = vec![
        ProvenanceFacts { commit_hex: "aaaaaaaaaaaaaaaa".to_owned(), op: Some(op(3, "me")) },
        ProvenanceFacts { commit_hex: "bbbbbbbbbbbbbbbb".to_owned(), op: Some(op(9, "me")) },
    ];
    engine.working_copies = vec![WorkingCopyFacts {
        workspace: "alpha".to_owned(),
        commit_hex: "aaaaaaaaaaaaaaaa".to_owned(),
    }];
    engine.child_parents = vec![vec!["bbbbbbbbbbbbbbbb".to_owned()]];
    engine.working_copy_ancestors = vec![vec!["aaaaaaaaaaaaaaaa".to_owned()]];
    let changes = engine.divergent_changes();
    let two_sided: Vec<&DivergentChange> =
        changes.iter().filter(|c| c.siblings.len() == 2).collect();
    assert_eq!(two_sided.len(), 1);
    let siblings = &two_sided[0].siblings;
    assert_eq!(two_sided[0].change_id, "zz");
    assert_eq!(siblings[0].commit_id, "bbbbbbbbbbbb");
    assert_eq!(siblings[1].commit_id, "aaaaaaaaaaaa");
    assert_eq!(siblings[1].wc_of, vec!["alpha".to_owned()]);
    assert!(siblings[0].has_children);
    assert!(!siblings[1].has_children);
    assert!(siblings[1].blocks_wc);
    assert!(!siblings[0].blocks_wc);
    assert_eq!(engine.operation_username(), "me");
}

#[test]
fn conflict_roots_are_ranked_by_blast() {
    let facts = |hex: &str, blast: usize| ConflictFacts {
        commit_hex: hex.to_owned(),
        conflicted_descendants: blast,
        paths: vec!["CHANGELOG.md".to_owned()],
    };
    let mut engine = empty_engine();
    engine.conflicts = vec![facts("111111111111aa", 2), facts("222222222222bb", 7)];
    let roots = engine.conflict_roots();
    assert_eq!(roots[0].commit_id, "222222222222");
    assert_eq!(roots[0].conflicted_descendants, 7);
    assert_eq!(roots[1].commit_id, "111111111111");
}

#[test]
fn churn_counts_recent_operations() {
    assert_eq!(churn_cutoff(100_000, 60), 40_000);
    assert_eq!(churn_cutoff(i64::MIN, u64::MAX), i64::MIN);
    let mut engine = empty_engine();
    engine.op_ends = vec![99_000, 50_000, 40_000, 39_999, 98_000];
    assert_eq!(engine.op_churn(100_000, 60, 10), OpChurn { recent: 3, capped: false });
    assert_eq!(engine.op_churn(100_000, 60, 2), OpChurn { recent: 2, capped: true });
}

#[test]
fn prefixes_are_looked_for_in_the_heads_first() {
    let mut engine = empty_engine();
    engine.commits = vec!["abc111".to_owned(), "abd222".to_owned()];
    assert_eq!(engine.resolve_commit_prefix("ab").unwrap(), "abc111");
    assert_eq!(engine.resolve_commit_prefix("abd").unwrap(), "abd222");
    engine.heads = vec!["abd222".to_owned()];
    assert_eq!(engine.resolve_commit_prefix("ab").unwrap(), "abd222");
    assert_eq!(
        engine.resolve_commit_prefix("f0").unwrap_err(),
        Error::Engine { message: "commit f0 not found".to_owned() }
    );
    assert_eq!(
        engine_error("reading the index", "broken"),
        Error::Engine { message: "reading the index: broken".to_owned() }
    );
}

#[test]
fn heal_plan_reports_content_diff_and_heals_divergence() {
    let candidates = vec![two("xyz")];
    let plan = plan_heal(&candidates, &options(), "me");
    assert_eq!(plan.planned, vec![PlannedHeal { candidate: 0, keep: 0 }]);

    let diffs = vec![vec![None, Some(vec!["detached.txt".to_owned()])]];
    let report = heal_report(&candidates, &plan, &diffs, false);
    assert_eq!(report.healed.len(), 1);
    assert_eq!(report.healed[0].keep, "xyz-new");
    assert_eq!(report.healed[0].abandon[0].commit_id, "xyz-old");
    assert_eq!(
        report.healed[0].abandon[0].changed_paths_vs_keep,
        Some(vec!["detached.txt".to_owned()])
    );
    let lines = render_plan(&candidates, &plan, &diffs, false);
    assert_eq!(
        lines,
        vec![
            "would heal change xyz",
            "  keep    xyz-new  work of xyz-new  [op op9 by me@host (describe commit)]",
            "  abandon xyz-old  work of xyz-old  [op op3 by me@host (describe commit)]",
            "          differs from keep: detached.txt",
        ]
    );
    let same = render_plan(&candidates, &plan, &vec![vec![None, Some(Vec::new())]], true);
    assert_eq!(same[0], "healing change xyz");
    assert_eq!(same[3], "          identical tree to keep");
    let unknown = render_plan(&candidates, &plan, &Vec::new(), true);
    assert_eq!(unknown[3], "          content diff unavailable");

    assert_eq!(heal_request(&candidates, &plan, false), None);
    let request = heal_request(&candidates, &plan, true).unwrap();
    assert_eq!(request.args.last().unwrap(), "xyz-old");
    assert!(!request.args.contains(&"xyz-new".to_owned()));

    let after = plan_heal(&Vec::new(), &options(), "me");
    let report = heal_report(&Vec::new(), &after, &Vec::new(), false);
    assert!(report.healed.is_empty() && report.skipped.is_empty());
}

#[test]
fn a_live_sibling_is_not_abandoned() {
    let mut live = two("xyz");
    live.change.siblings[1].wc_of = vec!["alpha".to_owned(), "beta".to_owned()];
    assert_eq!(
        reason(live),
        "stale sibling xyz-old is the working copy of workspace 'alpha', 'beta'"
    );
}

#[test]
fn a_stacked_sibling_is_not_abandoned() {
    let mut stacked = two("xyz");
    stacked.change.siblings[1].has_children = true;
    assert_eq!(
        reason(stacked),
        "stale sibling xyz-old has stacked descendants; heal manually"
    );
}

#[test]
fn the_kept_sibling_may_be_live() {
    let mut kept = two("xyz");
    kept.change.siblings[0].wc_of = vec!["alpha".to_owned()];
    kept.change.siblings[0].has_children = true;
    let plan = plan_heal(&vec![kept], &options(), "me");
    assert_eq!(plan.planned, vec![PlannedHeal { candidate: 0, keep: 0 }]);
}

#[test]
fn the_landing_target_is_not_abandoned() {
    let mut mainline = two("xyz");
    mainline.facts = vec![
        SiblingFacts { empty: false, in_target: false },
        SiblingFacts { empty: false, in_target: true },
    ];
    assert!(reason(mainline).contains("landing target's ancestry"));
}

#[test]
fn content_is_not_abandoned_for_an_empty_shell() {
    let shell = || {
        let mut shell = two("xyz");
        shell.facts = vec![
            SiblingFacts { empty: true, in_target: false },
            SiblingFacts { empty: false, in_target: false },
        ];
        shell
    };
    assert!(reason(shell()).contains("--prefer-content"));
    let mut preferring = options();
    preferring.prefer_content = true;
    let candidates = vec![shell()];
    let plan = plan_heal(&candidates, &preferring, "me");
    assert_eq!(plan.planned, vec![PlannedHeal { candidate: 0, keep: 1 }]);
    assert_eq!(plan_losers(&candidates, &plan), vec!["xyz-new".to_owned()]);
}

#[test]
fn heals_are_filtered_and_limited() {
    let mut theirs = two("xq");
    theirs.change.siblings[1].op = Some(op(3, "you"));
    let mut unknown = two("xr");
    unknown.change.siblings[1].op = None;
    let candidates = vec![two("xa"), theirs, unknown, two("ya"), two("xb")];
    let mut wanted = options();
    wanted.mine = true;
    wanted.changes = vec!["x".to_owned()];
    wanted.limit = 1;
    let plan = plan_heal(&candidates, &wanted, "me");
    assert_eq!(plan.planned, vec![PlannedHeal { candidate: 0, keep: 0 }]);
    assert!(plan.skipped.is_empty());
    assert_eq!(plan.filtered, 3);
    assert_eq!(plan.over_limit, 1);
    let lines = render_plan(&candidates, &plan, &Vec::new(), false);
    assert_eq!(lines[lines.len() - 2], "(3 divergent change(s) excluded by filters)");
    assert_eq!(lines[lines.len() - 1], "(1 healable change(s) beyond --limit; rerun to continue)");
}

#[test]
fn heals_close_with_what_was_done() {
    assert_eq!(
        render_closing(2, 3, true),
        vec![
            "",
            "healed 2 change(s): abandoned 3 stale sibling(s) in one operation",
            "  undo with: jj op undo",
        ]
    );
    assert_eq!(
        render_closing(2, 3, false),
        vec!["", "plan only; rerun with --apply to heal"]
    );
    assert!(render_closing(0, 0, true).is_empty());
    let mut bare = sibling("c1", None);
    bare.description = String::new();
    assert_eq!(describe_sibling(&bare), "c1  (no description)  [op unknown]");
}

#[test]
fn a_heal_limit_is_positive() {
    assert_eq!(validated_limit(3).unwrap(), 3);
    assert!(validated_limit(0).is_err());
}
