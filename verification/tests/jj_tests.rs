use jj_navi::jj::JjRequest;
use jj_navi::types::WorkspaceName;

fn args(request: &JjRequest) -> Vec<&str> {
    request.args.iter().map(String::as_str).collect()
}

fn texts(values: &[&str]) -> Vec<String> {
    values.iter().map(|v| v.to_string()).collect()
}

const LINE: &str = "commit_id.short(12) ++ \"\\0\" ++ change_id.short(12) ++ \"\\0\" ++ description.first_line() ++ \"\\n\"";

#[test]
fn every_invocation_pins_the_output_format() {
    let request = JjRequest::snapshot();
    assert_eq!(request.full_args(), texts(&["--color=never", "--no-pager", "util", "snapshot"]));
    assert_eq!(request.format_command(), "jj util snapshot");
}

#[test]
fn reading_requests_ignore_the_working_copy() {
    assert_eq!(
        args(&JjRequest::revisions("@-")),
        ["--ignore-working-copy", "log", "-r", "@-", "--no-graph", "-T", LINE]
    );
    assert_eq!(
        args(&JjRequest::changed_paths("a", "b")),
        ["--ignore-working-copy", "diff", "--summary", "--from", "a", "--to", "b"]
    );
    assert_eq!(
        args(&JjRequest::changed_paths_in("a")),
        ["--ignore-working-copy", "diff", "--summary", "-r", "a"]
    );
    assert_eq!(
        args(&JjRequest::diff_git("a", "b")),
        ["--ignore-working-copy", "diff", "--git", "--from", "a", "--to", "b"]
    );
    assert_eq!(
        args(&JjRequest::diff_git_rev("a")),
        ["--ignore-working-copy", "diff", "--git", "-r", "a"]
    );
    assert_eq!(
        args(&JjRequest::workspace_root("alpha")),
        ["--ignore-working-copy", "workspace", "root", "--name", "alpha"]
    );
    assert_eq!(
        args(&JjRequest::diff_stat()),
        ["--ignore-working-copy", "diff", "--stat", "-r", "@"]
    );
}

#[test]
fn templates_are_fixed() {
    assert_eq!(
        args(&JjRequest::current_workspace()),
        [
            "--ignore-working-copy",
            "workspace",
            "list",
            "-T",
            "if(target.current_working_copy(), name ++ \"\\n\", \"\")"
        ]
    );
    assert_eq!(
        args(&JjRequest::list_workspaces())[4],
        "name ++ \"\\0\" ++ if(target.current_working_copy(), \"1\", \"0\") ++ \"\\0\" ++ target.commit_id().short(12) ++ \"\\0\" ++ target.change_id().short(12) ++ \"\\0\" ++ target.description().first_line() ++ \"\\n\""
    );
}

#[test]
fn rewriting_requests() {
    assert_eq!(args(&JjRequest::duplicate("x")), ["duplicate", "x"]);
    assert_eq!(args(&JjRequest::duplicate_onto("x", "y")), ["duplicate", "-r", "x", "-d", "y"]);
    assert_eq!(args(&JjRequest::rebase_source("@", "y")), ["rebase", "-s", "@", "-d", "y"]);
    assert_eq!(args(&JjRequest::rebase_branch("x", "y")), ["rebase", "-b", "x", "-d", "y"]);
    assert_eq!(
        args(&JjRequest::rebase_children("x", "y")),
        ["rebase", "-s", "children(x)", "-d", "y"]
    );
    assert_eq!(args(&JjRequest::new_working_copy("@")), ["new", "@"]);
    assert_eq!(args(&JjRequest::describe("@", "msg")), ["describe", "-r", "@", "-m", "msg"]);
    assert_eq!(
        args(&JjRequest::abandon_commits(&texts(&["a", "b"]))),
        ["abandon", "-r", "a | b"]
    );
    assert_eq!(
        args(&JjRequest::bookmark_create("main", "@-")),
        ["bookmark", "create", "main", "-r", "@-"]
    );
    assert_eq!(
        args(&JjRequest::bookmark_move("main", "abc")),
        ["bookmark", "move", "main", "--to", "abc"]
    );
}

#[test]
fn restoring_names_files_exactly() {
    assert_eq!(
        args(&JjRequest::restore_paths("head", &texts(&["docs/a&b.txt", "x\"y"]))),
        ["restore", "--from", "head", "file:\"docs/a&b.txt\"", "file:\"x\\\"y\""]
    );
}

#[test]
fn workspaces_are_added_with_their_patterns() {
    let name = WorkspaceName::new("alpha".to_owned()).unwrap();
    assert_eq!(
        args(&JjRequest::workspace_add(&name, "../r.alpha", &None, &None)),
        ["workspace", "add", "--name", "alpha", "../r.alpha"]
    );
    assert_eq!(
        args(&JjRequest::workspace_add(
            &name,
            "../r.alpha",
            &Some("abc".to_owned()),
            &Some("empty".to_owned())
        )),
        [
            "workspace",
            "add",
            "--name",
            "alpha",
            "-r",
            "abc",
            "--sparse-patterns",
            "empty",
            "../r.alpha"
        ]
    );
    assert_eq!(args(&JjRequest::workspace_forget("alpha")), ["workspace", "forget", "alpha"]);
    assert_eq!(args(&JjRequest::update_stale()), ["workspace", "update-stale"]);
}

#[test]
fn sparse_patterns_are_added_or_replaced() {
    let paths = texts(&["src", "docs"]);
    assert_eq!(
        args(&JjRequest::sparse_set(&paths)),
        ["sparse", "set", "--add", "src", "--add", "docs"]
    );
    assert_eq!(
        args(&JjRequest::sparse_set_exact(&paths)),
        ["sparse", "set", "--clear", "--add", "src", "--add", "docs"]
    );
    assert_eq!(args(&JjRequest::sparse_list()), ["sparse", "list"]);
}

#[test]
fn questions_are_revsets() {
    assert_eq!(args(&JjRequest::is_ancestor("a", "b"))[3], "(a) & ::(b)");
    assert_eq!(args(&JjRequest::is_empty_commit("@"))[3], "(@) & empty()");
    assert_eq!(args(&JjRequest::has_conflicts("x"))[3], "x & conflicts()");
}

#[test]
fn prepared_files_are_copied_into_place() {
    assert_eq!(
        args(&JjRequest::resolve_with_prepared_file("abc", "CHANGELOG.md", "/tmp/p")),
        [
            "--config",
            "merge-tools.navi-apply.program=cp",
            "--config",
            "merge-tools.navi-apply.merge-args=[\"/tmp/p\", \"$output\"]",
            "resolve",
            "-r",
            "abc",
            "--tool",
            "navi-apply",
            "file:\"CHANGELOG.md\""
        ]
    );
}

#[test]
fn settings_are_listed_with_defaults() {
    assert_eq!(
        args(&JjRequest::config_list("ui")),
        ["config", "list", "--include-defaults", "ui"]
    );
    assert_eq!(args(&JjRequest::config_list_all()), ["config", "list", "--include-defaults"]);
    assert_eq!(args(&JjRequest::version()), ["--version"]);
    assert_eq!(args(&JjRequest::quiet_snapshot()), ["--quiet", "util", "snapshot"]);
}

#[test]
fn a_merge_finds_what_it_brought() {
    assert_eq!(
        args(&JjRequest::children("beta@")),
        ["--ignore-working-copy", "log", "-r", "children(beta@)", "--no-graph", "-T", LINE]
    );
    assert_eq!(
        args(&JjRequest::tips(&texts(&["c1", "c2"])))[3],
        "heads((c1 | c2)::)"
    );
    assert_eq!(args(&JjRequest::new_working_copy_on(&texts(&["c1", "c2"]))), ["new", "c1 | c2"]);
}
