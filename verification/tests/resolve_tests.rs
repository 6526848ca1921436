use jj_navi::engine::ConflictRoot;
use jj_navi::error::Error;
use jj_navi::resolve::{
    apply_step, planned_json, prepared_file_name, render_census, render_policy, render_union_plan,
    scope_request, scoped_census, sweep_policies, ApplyFacts, ApplyStep, ApplyTarget, CensusRoot, ResolvedRoot, UnionRun, UnionStep, MAX_PASSES, NO_POLICIES,
};
use jj_navi::types::{RepoConfig, ResolvePolicy, ResolveStrategy, WorkspaceName};
use jj_navi::union_merge::{
    conflict_sides, file_terms, union_hunk_lines, union_hunks, union_merge_file, union_terms,
};

fn root(id: &str, blast: usize, paths: &[&str]) -> ConflictRoot {
    ConflictRoot {
        commit_id: id.to_owned(),
        conflicted_descendants: blast,
        paths: paths.iter().map(|p| p.to_string()).collect(),
    }
}

fn census(id: &str, blast: usize, paths: &[&str], in_target: Option<bool>) -> CensusRoot {
    CensusRoot {
        root: root(id, blast, paths),
        change_id: format!("k{id}"),
        sides: paths.iter().map(|_| 2).collect(),
        in_target,
        in_scope: true,
    }
}

fn bytes(text: &str) -> Vec<u8> {
    text.as_bytes().to_vec()
}

fn id(text: &str) -> Option<Vec<u8>> {
    Some(bytes(text))
}

fn union(sides: &[&str]) -> String {
    let mut out = Vec::new();
    union_hunk_lines(&mut out, &sides.iter().map(|s| bytes(s)).collect());
    String::from_utf8(out).unwrap()
}

#[test]
fn resolve_policy_sweep_union_resolves_changelog_conflicts() {
    let lines = render_census(&vec![census("c1", 3, &["CHANGELOG.md"], Some(true))]);
    assert_eq!(lines[0], "1 conflict root(s) explain ~3 conflicted commit(s)");

    let mut config = RepoConfig::default();
    let error = sweep_policies(&config).err().unwrap();
    assert_eq!(error.code(), "engine");
    assert_eq!(error, Error::Engine { message: NO_POLICIES.to_owned() });

    config.resolve =
        vec![ResolvePolicy { path: "CHANGELOG.md".to_owned(), strategy: ResolveStrategy::Union }];
    let policies = sweep_policies(&config).unwrap();
    assert_eq!(render_policy(&policies[0]), "policy: 'CHANGELOG.md' -> union");

    let mut run = UnionRun::start(&policies[0].path, true);
    assert_eq!(run.opening(), UnionStep::SnapshotLive);
    assert_eq!(run.snapshotted(), UnionStep::Census);
    assert_eq!(run.census(&vec![root("c1", 3, &["CHANGELOG.md"])]), UnionStep::Merge);
    assert_eq!(run.target(), "c1");
    let merge = union_merge_file(
        &vec![
            bytes("# log\n- base\n- alpha entry\n"),
            bytes("# log\n- base\n"),
            bytes("# log\n- base\n- trunk entry\n"),
        ],
        false,
        true,
    )
    .unwrap();
    assert_eq!(merge.sides, 2);
    let changelog = String::from_utf8(merge.content).unwrap();
    assert!(changelog.contains("alpha entry"), "union keeps the lane side");
    assert!(changelog.contains("trunk entry"), "union keeps the trunk side");
    assert!(!changelog.contains("<<<<<<<"), "no conflict markers may survive");
    assert_eq!(changelog, "# log\n- base\n- alpha entry\n- trunk entry\n");

    assert_eq!(run.resolved_line(), "resolved 'CHANGELOG.md' at c1 (pass 1)");
    assert_eq!(run.root_resolved(), UnionStep::Census);
    assert_eq!(run.census(&Vec::new()), UnionStep::Done);
    assert_eq!(run.stopped(), UnionStep::RecoverLive);
    let report = run.report();
    assert_eq!(report.file, "CHANGELOG.md");
    assert_eq!(report.strategy, "union");
    assert_eq!(
        report.roots,
        vec![ResolvedRoot {
            commit_id: "c1".to_owned(),
            conflicted_descendants: 3,
            pass: 1,
        }]
    );
    assert_eq!(render_census(&Vec::new()), vec!["no conflicted commits"]);
}

#[test]
fn the_census_lists_files() {
    assert_eq!(
        render_census(&vec![
            census("c1", 3, &["a", "b"], Some(true)),
            census("c2", 1, &[], None),
            census("c3", 1, &["a"], Some(false)),
        ]),
        vec![
            "3 conflict root(s) explain ~5 conflicted commit(s)",
            "  c1  blast 3  files: a, b  sides: 2, 2  change kc1  [BLOCKS TARGET]",
            "  c2  blast 1  files: (none in tree?)  change kc2",
            "  c3  blast 1  files: a  sides: 2  change kc3  [stranded]",
            "",
            "hint: navi resolve --union <file> heals append-only file conflicts at the roots",
        ]
    );
}

#[test]
fn a_plan_touches_nothing() {
    let mut run = UnionRun::start("log", false);
    assert_eq!(run.opening(), UnionStep::Census);
    let roots = vec![root("c1", 3, &["log"]), root("c2", 9, &["other"])];
    assert_eq!(run.census(&roots), UnionStep::Planned);
    assert_eq!(run.targets.len(), 1);
    assert_eq!(run.stopped(), UnionStep::Report);
    assert_eq!(planned_json(&run.targets)[0].pass, 0);
    assert_eq!(
        render_union_plan("log", &run.targets),
        vec![
            "would union-resolve 'log' at 1 conflict root(s):",
            "  c1  (blast 3: descendants re-merge automatically)",
            "",
            "plan only; rerun with --apply to resolve",
            "note: descendants that independently changed 'log' re-conflict in the same shape; --apply loops until fixpoint",
        ]
    );
}

#[test]
fn roots_that_are_not_union_safe_are_skipped_for_good() {
    let mut run = UnionRun::start("log", true);
    let roots = vec![root("c1", 3, &["log"]), root("c2", 2, &["log"])];
    assert_eq!(run.census(&roots), UnionStep::Merge);
    assert_eq!(
        run.skipped_line(),
        "skip c1: 'log' conflict is not union-safe (deleted side, binary, or non-file)"
    );
    assert_eq!(run.root_skipped(), UnionStep::Merge);
    assert_eq!(run.target(), "c2");
    assert_eq!(run.root_resolved(), UnionStep::Census);
    assert_eq!(run.census(&roots), UnionStep::Merge);
    assert_eq!(run.target(), "c2");
    assert_eq!(run.root_skipped(), UnionStep::Done);
    assert_eq!(run.census(&roots), UnionStep::Done);
    assert_eq!(run.report().skipped, vec!["c1".to_owned(), "c2".to_owned()]);
}

#[test]
fn passes_run_out() {
    let mut run = UnionRun::start("log", true);
    let roots = vec![root("c1", 3, &["log"])];
    for _ in 0..MAX_PASSES {
        assert_eq!(run.census(&roots), UnionStep::Merge);
        run.root_resolved();
    }
    assert_eq!(run.census(&roots), UnionStep::OutOfPasses);
    assert_eq!(run.pass, run.resolved.len() + 1);
    assert_eq!(run.recovered(), UnionStep::Report);
    assert_eq!(run.out_of_passes_line(), "stopped after 10 passes; rerun to continue");
    assert_eq!(run.stopped(), UnionStep::RecoverLive);
    assert_eq!(
        run.closing(),
        vec![
            "",
            "union-resolved 'log' at 10 root(s) across 11 pass(es)",
            "  every resolution is a separate jj operation; jj op log to review",
        ]
    );
}

#[test]
fn prepared_files_have_flat_names() {
    assert_eq!(prepared_file_name("docs/CHANGELOG.md", 42), "navi-resolve-42-docs-CHANGELOG.md");
    assert_eq!(prepared_file_name("a\\b", 1), "navi-resolve-1-a-b");
}

#[test]
fn the_union_keeps_each_line_once() {
    assert_eq!(union(&["a\nb\n", "b\nc\n"]), "a\nb\nc\n");
    assert_eq!(union(&["a\n\n", "\na\nb\n"]), "a\n\n\nb\n");
    assert_eq!(union(&["a\na\n"]), "a\na\n");
    assert_eq!(union(&["a", "b"]), "a\nb");
    assert_eq!(union(&["a\nb", "a\nc\n"]), "a\nb\nc\n");
    assert_eq!(union(&["a\n", "b"]), "a\nb");
    assert_eq!(union(&[]), "");
}

#[test]
fn hunks_are_joined_in_order() {
    let hunks = vec![
        vec![bytes("head\n")],
        vec![bytes("x\n"), bytes("base\n"), bytes("y\n")],
        vec![bytes("tail\n")],
    ];
    assert_eq!(String::from_utf8(union_hunks(&hunks)).unwrap(), "head\nx\ny\ntail\n");
}

#[test]
fn changes_that_do_not_touch_are_merged() {
    let merge = union_merge_file(
        &vec![bytes("A\nb\nc\nd\ne\n"), bytes("a\nb\nc\nd\ne\n"), bytes("a\nb\nc\nd\nE\n")],
        false,
        true,
    )
    .unwrap();
    assert_eq!(String::from_utf8(merge.content).unwrap(), "A\nb\nc\nd\nE\n");
}

#[test]
fn one_side_alone_is_itself() {
    let merge = union_merge_file(&vec![bytes("a\nb")], false, true).unwrap();
    assert_eq!(merge.content, bytes("a\nb"));
    assert_eq!(merge.sides, 1);
}

#[test]
fn the_same_change_on_both_sides_is_taken_or_united() {
    let terms = vec![bytes("new\n"), bytes("old\n"), bytes("new\n")];
    let taken = union_merge_file(&terms, false, true).unwrap();
    assert_eq!(taken.content, bytes("new\n"));
    let united = union_merge_file(&terms, false, false).unwrap();
    assert_eq!(united.content, bytes("new\n"));
}

#[test]
fn binary_contents_are_not_union_material() {
    assert_eq!(
        union_merge_file(&vec![bytes("a"), vec![0], bytes("b")], false, true),
        None
    );
}

#[test]
fn matching_terms_cancel_out() {
    let ids = vec![id("a"), id("b"), id("b"), id("c"), id("d")];
    assert_eq!(union_terms(&ids), Some(vec![bytes("a"), bytes("c"), bytes("d")]));
    let resolved = vec![id("a"), id("b"), id("b")];
    assert_eq!(union_terms(&resolved), Some(vec![bytes("a")]));
}

#[test]
fn a_deleted_side_is_not_union_material() {
    assert_eq!(union_terms(&vec![id("a"), id("b"), None]), None);
    assert_eq!(file_terms(vec![id("a"), None]), None);
    assert_eq!(file_terms(vec![id("a")]), Some(vec![bytes("a")]));
}

fn apply(sides: usize, fail_at: &str) -> (Vec<String>, bool) {
    let target = ApplyTarget {
        revision: "c1".to_owned(),
        file: "LOG".to_owned(),
        prepared: "/tmp/p".to_owned(),
        scratch: WorkspaceName::new("scratch".to_owned()).unwrap(),
        scratch_root: "/tmp/scratch".to_owned(),
    };
    let mut facts = ApplyFacts {
        failed: false,
        resolved: false,
        added: false,
        written: false,
        squashed: false,
        forgotten: false,
        deleted: false,
    };
    let mut done: Vec<String> = Vec::new();
    loop {
        let step = match apply_step(sides, &target, &facts) {
            ApplyStep::Resolve(jj) => {
                facts.resolved = true;
                jj.args[4].clone()
            }
            ApplyStep::AddScratch(jj) => {
                facts.added = true;
                jj.args.join(" ")
            }
            ApplyStep::WriteFile => {
                facts.written = true;
                "write".to_owned()
            }
            ApplyStep::Squash(jj) => {
                facts.squashed = true;
                jj.args.join(" ")
            }
            ApplyStep::Forget(jj) => {
                facts.forgotten = true;
                jj.args.join(" ")
            }
            ApplyStep::DeleteDirectory => {
                facts.deleted = true;
                "delete".to_owned()
            }
            ApplyStep::Done(applied) => return (done, applied),
        };
        if step == fail_at {
            facts.failed = true;
        }
        done.push(step);
    }
}

#[test]
fn two_sides_are_resolved_by_a_merge_tool() {
    assert_eq!(apply(2, ""), (vec!["resolve".to_owned()], true));
    assert_eq!(apply(2, "resolve"), (vec!["resolve".to_owned()], false));
}

#[test]
fn more_sides_are_resolved_in_a_scratch_workspace() {
    let (done, applied) = apply(3, "");
    assert!(applied);
    assert_eq!(
        done,
        [
            "workspace add --name scratch -r c1 /tmp/scratch",
            "write",
            "squash --into c1 --use-destination-message",
            "workspace forget scratch",
            "delete",
        ]
    );
    let (done, applied) = apply(3, "write");
    assert!(!applied);
    assert_eq!(done[1..], ["write", "workspace forget scratch", "delete"]);
}

#[test]
fn a_census_is_scoped_by_a_revset() {
    let mut roots = vec![
        census("c1", 3, &["a"], Some(true)),
        census("c2", 2, &["a"], Some(false)),
        census("c3", 1, &["a"], None),
    ];
    roots[1].in_scope = false;
    let kept: Vec<String> =
        scoped_census(roots).into_iter().map(|entry| entry.root.commit_id).collect();
    assert_eq!(kept, vec!["c1", "c3"]);
    assert!(scope_request("c1", "mine() | x").args.contains(&"(c1) & (mine() | x)".to_owned()));
}

#[test]
fn an_unterminated_line_stays_a_line() {
    let merge = union_merge_file(
        &vec![bytes("log\n- one"), bytes("log\n"), bytes("log\n- two")],
        false,
        true,
    )
    .unwrap();
    assert_eq!(String::from_utf8(merge.content).unwrap(), "log\n- one\n- two");
}

#[test]
fn matching_terms_do_not_count_as_sides() {
    assert_eq!(conflict_sides(&vec![id("a"), id("b"), id("c")]), 2);
    assert_eq!(conflict_sides(&vec![id("a"), id("b"), id("b")]), 1);
    assert_eq!(conflict_sides(&vec![id("a"), id("b"), None, id("c"), id("d")]), 3);
}
