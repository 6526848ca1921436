//! The `jj` command line: which arguments each request passes.

use vstd::prelude::*;

use crate::revset::{self, fileset_exact_pattern};
use crate::text::{self, cat2, cat3, copy, copy_all, joined};
use crate::types::WorkspaceName;

verus! {

/// One invocation of `jj`.
#[derive(Debug, PartialEq, Eq)]
pub struct JjRequest {
    /// The arguments, without the ones that every invocation has.
    pub args: Vec<String>,
}

impl View for JjRequest {
    type V = Seq<Seq<char>>;

    open spec fn view(&self) -> Seq<Seq<char>> {
        text::views(self.args@)
    }
}

/// Arguments that every invocation starts with: they keep colours and pagers
/// out of what is parsed.
pub open spec fn fixed_args() -> Seq<Seq<char>> {
    seq!["--color=never"@, "--no-pager"@]
}

/// Template of one line per revision.
pub const REVISION_TEMPLATE: &'static str = "commit_id.short(12) ++ \"\\0\" ++ change_id.short(12) ++ \"\\0\" ++ description.first_line() ++ \"\\n\"";

/// Template of one line per workspace.
pub const WORKSPACE_TEMPLATE: &'static str = "name ++ \"\\0\" ++ if(target.current_working_copy(), \"1\", \"0\") ++ \"\\0\" ++ target.commit_id().short(12) ++ \"\\0\" ++ target.change_id().short(12) ++ \"\\0\" ++ target.description().first_line() ++ \"\\n\"";

/// Template of one line for the current workspace and an empty text for the
/// others.
pub const CURRENT_TEMPLATE: &'static str = "if(target.current_working_copy(), name ++ \"\\n\", \"\")";

/// `args` with one more argument for each text of `more`, preceded by `flag`.
pub open spec fn with_flagged(args: Seq<Seq<char>>, flag: Seq<char>, more: Seq<Seq<char>>) -> Seq<
    Seq<char>,
>
    decreases more.len(),
{
    if more.len() == 0 {
        args
    } else {
        with_flagged(args, flag, more.drop_last()).push(flag).push(more.last())
    }
}

/// Exact file patterns for a list of paths.
pub open spec fn patterns_of(paths: Seq<Seq<char>>) -> Seq<Seq<char>> {
    paths.map_values(|p: Seq<char>| revset::exact_pattern(p))
}


/// Ask for the version.
pub open spec fn version_args() -> Seq<Seq<char>> {
    seq!["--version"@]
}

/// Ask for the name of the current workspace.
pub open spec fn current_workspace_args() -> Seq<Seq<char>> {
    seq!["--ignore-working-copy"@, "workspace"@, "list"@, "-T"@, CURRENT_TEMPLATE@]
}

/// List the workspaces.
pub open spec fn list_workspaces_args() -> Seq<Seq<char>> {
    seq!["--ignore-working-copy"@, "workspace"@, "list"@, "-T"@, WORKSPACE_TEMPLATE@]
}

/// Ask for the directory of a workspace.
pub open spec fn workspace_root_args(workspace: Seq<char>) -> Seq<Seq<char>> {
    seq!["--ignore-working-copy"@, "workspace"@, "root"@, "--name"@, workspace]
}

/// Forget a workspace.
pub open spec fn workspace_forget_args(workspace: Seq<char>) -> Seq<Seq<char>> {
    seq!["workspace"@, "forget"@, workspace]
}

/// Make a stale working copy current.
pub open spec fn update_stale_args() -> Seq<Seq<char>> {
    seq!["workspace"@, "update-stale"@]
}

/// Snapshot the working copy.
pub open spec fn snapshot_args() -> Seq<Seq<char>> {
    seq!["util"@, "snapshot"@]
}

/// Snapshot the working copy without commentary.
pub open spec fn quiet_snapshot_args() -> Seq<Seq<char>> {
    seq!["--quiet"@, "util"@, "snapshot"@]
}

/// List the revisions that a revset selects.
pub open spec fn revisions_args(revset: Seq<char>) -> Seq<Seq<char>> {
    seq![
        "--ignore-working-copy"@,
        "log"@,
        "-r"@,
        revset,
        "--no-graph"@,
        "-T"@,
        REVISION_TEMPLATE@,
    ]
}

/// Duplicate revisions.
pub open spec fn duplicate_args(revset: Seq<char>) -> Seq<Seq<char>> {
    seq!["duplicate"@, revset]
}

/// Duplicate revisions onto another.
pub open spec fn duplicate_onto_args(revset: Seq<char>, destination: Seq<char>) -> Seq<Seq<char>> {
    seq!["duplicate"@, "-r"@, revset, "-d"@, destination]
}

/// Rebase the subtree rooted at `source` onto `destination`.
pub open spec fn rebase_source_args(source: Seq<char>, destination: Seq<char>) -> Seq<Seq<char>> {
    seq!["rebase"@, "-s"@, source, "-d"@, destination]
}

/// Rebase the branch containing `branch` onto `destination`.
pub open spec fn rebase_branch_args(branch: Seq<char>, destination: Seq<char>) -> Seq<Seq<char>> {
    seq!["rebase"@, "-b"@, branch, "-d"@, destination]
}

/// Start a new change on a revision.
pub open spec fn new_working_copy_args(revision: Seq<char>) -> Seq<Seq<char>> {
    seq!["new"@, revision]
}

/// Describe a revision.
pub open spec fn describe_args(revision: Seq<char>, message: Seq<char>) -> Seq<Seq<char>> {
    seq!["describe"@, "-r"@, revision, "-m"@, message]
}

/// Summarize the diff between two revisions.
pub open spec fn changed_paths_args(from: Seq<char>, to: Seq<char>) -> Seq<Seq<char>> {
    seq!["--ignore-working-copy"@, "diff"@, "--summary"@, "--from"@, from, "--to"@, to]
}

/// Summarize the diff of a revision against its parents.
pub open spec fn changed_paths_in_args(revision: Seq<char>) -> Seq<Seq<char>> {
    seq!["--ignore-working-copy"@, "diff"@, "--summary"@, "-r"@, revision]
}

/// Render the diff between two revisions in git format.
pub open spec fn diff_git_args(from: Seq<char>, to: Seq<char>) -> Seq<Seq<char>> {
    seq!["--ignore-working-copy"@, "diff"@, "--git"@, "--from"@, from, "--to"@, to]
}

/// Render the diff of a revision in git format.
pub open spec fn diff_git_rev_args(revision: Seq<char>) -> Seq<Seq<char>> {
    seq!["--ignore-working-copy"@, "diff"@, "--git"@, "-r"@, revision]
}

/// Ask for the size of the working-copy diff.
pub open spec fn diff_stat_args() -> Seq<Seq<char>> {
    seq!["--ignore-working-copy"@, "diff"@, "--stat"@, "-r"@, "@"@]
}

/// List the sparse patterns.
pub open spec fn sparse_list_args() -> Seq<Seq<char>> {
    seq!["sparse"@, "list"@]
}

/// List one setting.
pub open spec fn config_list_args(name: Seq<char>) -> Seq<Seq<char>> {
    seq!["config"@, "list"@, "--include-defaults"@, name]
}

/// List every setting.
pub open spec fn config_list_all_args() -> Seq<Seq<char>> {
    seq!["config"@, "list"@, "--include-defaults"@]
}

/// Create a bookmark.
pub open spec fn bookmark_create_args(name: Seq<char>, revision: Seq<char>) -> Seq<Seq<char>> {
    seq!["bookmark"@, "create"@, name, "-r"@, revision]
}

/// Move a bookmark.
pub open spec fn bookmark_move_args(name: Seq<char>, revision: Seq<char>) -> Seq<Seq<char>> {
    seq!["bookmark"@, "move"@, name, "--to"@, revision]
}

/// Rebase every visible child of `parent` onto `destination`.
pub open spec fn rebase_children_args(parent: Seq<char>, destination: Seq<char>) -> Seq<Seq<char>> {
    rebase_source_args("children("@ + parent + ")"@, destination)
}

/// Move what the working copy changes into a revision, which keeps its message.
pub open spec fn squash_into_args(revision: Seq<char>) -> Seq<Seq<char>> {
    seq!["squash"@, "--into"@, revision, "--use-destination-message"@]
}

/// Abandon commits in a single operation.
pub open spec fn abandon_args(commits: Seq<Seq<char>>) -> Seq<Seq<char>> {
    seq!["abandon"@, "-r"@, text::join(commits, " | "@)]
}

/// Restore files of the working copy from a revision.
pub open spec fn restore_args(from: Seq<char>, paths: Seq<Seq<char>>) -> Seq<Seq<char>> {
    seq!["restore"@, "--from"@, from] + patterns_of(paths)
}

/// Add sparse patterns.
pub open spec fn sparse_add_args(paths: Seq<Seq<char>>) -> Seq<Seq<char>> {
    with_flagged(seq!["sparse"@, "set"@], "--add"@, paths)
}

/// Replace the sparse patterns.
pub open spec fn sparse_exact_args(paths: Seq<Seq<char>>) -> Seq<Seq<char>> {
    with_flagged(seq!["sparse"@, "set"@, "--clear"@], "--add"@, paths)
}

/// Create a workspace, with explicit sparse patterns where they are given.
pub open spec fn workspace_add_args(
    name: Seq<char>,
    root: Seq<char>,
    revision: Option<Seq<char>>,
    patterns: Option<Seq<char>>,
) -> Seq<Seq<char>> {
    let base = seq!["workspace"@, "add"@, "--name"@, name];
    let at = match revision {
        Some(r) => base.push("-r"@).push(r),
        None => base,
    };
    let sparse = match patterns {
        Some(p) => at.push("--sparse-patterns"@).push(p),
        None => at,
    };
    sparse.push(root)
}

/// Resolve one conflicted file to prepared content: a merge tool that copies
/// the prepared file into place.
pub open spec fn resolve_prepared_args(
    revision: Seq<char>,
    path: Seq<char>,
    prepared: Seq<char>,
) -> Seq<Seq<char>> {
    seq![
        "--config"@,
        "merge-tools.navi-apply.program=cp"@,
        "--config"@,
        "merge-tools.navi-apply.merge-args=[\""@ + prepared + "\", \"$output\"]"@,
        "resolve"@,
        "-r"@,
        revision,
        "--tool"@,
        "navi-apply"@,
        revset::exact_pattern(path),
    ]
}

impl JjRequest {
    /// The complete command line as it is reported.
    pub open spec fn command_text(args: Seq<Seq<char>>) -> Seq<char> {
        "jj "@ + text::join(args, " "@)
    }

    /// Every argument that `jj` is started with.
    pub fn full_args(&self) -> (res: Vec<String>)
        ensures
            text::views(res@) == fixed_args() + self@,
    {
        let mut out: Vec<String> = vec![copy("--color=never"), copy("--no-pager")];
        let mut rest = copy_all(&self.args);
        let ghost tail = rest@;
        out.append(&mut rest);
        assert(text::views(out@) =~= fixed_args() + text::views(tail));
        out
    }

    /// The complete command line as it is reported.
    pub fn format_command(&self) -> (res: String)
        ensures
            res@ == JjRequest::command_text(self@),
    {
        cat2("jj ", joined(&self.args, " ").as_str())
    }


    /// Ask for the version.
    pub fn version() -> (res: JjRequest)
        ensures
            res@ == version_args(),
    {
        let args: Vec<String> = vec![
            copy("--version"),
        ];
        assert(text::views(args@) =~= version_args());
        JjRequest { args }
    }

    /// Ask for the name of the current workspace.
    pub fn current_workspace() -> (res: JjRequest)
        ensures
            res@ == current_workspace_args(),
    {
        let args: Vec<String> = vec![
            copy("--ignore-working-copy"),
            copy("workspace"),
            copy("list"),
            copy("-T"),
            copy(CURRENT_TEMPLATE),
        ];
        assert(text::views(args@) =~= current_workspace_args());
        JjRequest { args }
    }

    /// List the workspaces.
    pub fn list_workspaces() -> (res: JjRequest)
        ensures
            res@ == list_workspaces_args(),
    {
        let args: Vec<String> = vec![
            copy("--ignore-working-copy"),
            copy("workspace"),
            copy("list"),
            copy("-T"),
            copy(WORKSPACE_TEMPLATE),
        ];
        assert(text::views(args@) =~= list_workspaces_args());
        JjRequest { args }
    }

    /// Ask for the directory of a workspace.
    pub fn workspace_root(workspace: &str) -> (res: JjRequest)
        ensures
            res@ == workspace_root_args(workspace@),
    {
        let args: Vec<String> = vec![
            copy("--ignore-working-copy"),
            copy("workspace"),
            copy("root"),
            copy("--name"),
            copy(workspace),
        ];
        assert(text::views(args@) =~= workspace_root_args(workspace@));
        JjRequest { args }
    }

    /// Forget a workspace.
    pub fn workspace_forget(workspace: &str) -> (res: JjRequest)
        ensures
            res@ == workspace_forget_args(workspace@),
    {
        let args: Vec<String> = vec![
            copy("workspace"),
            copy("forget"),
            copy(workspace),
        ];
        assert(text::views(args@) =~= workspace_forget_args(workspace@));
        JjRequest { args }
    }

    /// Make a stale working copy current.
    pub fn update_stale() -> (res: JjRequest)
        ensures
            res@ == update_stale_args(),
    {
        let args: Vec<String> = vec![
            copy("workspace"),
            copy("update-stale"),
        ];
        assert(text::views(args@) =~= update_stale_args());
        JjRequest { args }
    }

    /// Snapshot the working copy.
    pub fn snapshot() -> (res: JjRequest)
        ensures
            res@ == snapshot_args(),
    {
        let args: Vec<String> = vec![
            copy("util"),
            copy("snapshot"),
        ];
        assert(text::views(args@) =~= snapshot_args());
        JjRequest { args }
    }

    /// Snapshot the working copy without commentary.
    pub fn quiet_snapshot() -> (res: JjRequest)
        ensures
            res@ == quiet_snapshot_args(),
    {
        let args: Vec<String> = vec![
            copy("--quiet"),
            copy("util"),
            copy("snapshot"),
        ];
        assert(text::views(args@) =~= quiet_snapshot_args());
        JjRequest { args }
    }

    /// List the revisions that a revset selects.
    pub fn revisions(revset: &str) -> (res: JjRequest)
        ensures
            res@ == revisions_args(revset@),
    {
        let args: Vec<String> = vec![
            copy("--ignore-working-copy"),
            copy("log"),
            copy("-r"),
            copy(revset),
            copy("--no-graph"),
            copy("-T"),
            copy(REVISION_TEMPLATE),
        ];
        assert(text::views(args@) =~= revisions_args(revset@));
        JjRequest { args }
    }

    /// Duplicate revisions.
    pub fn duplicate(revset: &str) -> (res: JjRequest)
        ensures
            res@ == duplicate_args(revset@),
    {
        let args: Vec<String> = vec![
            copy("duplicate"),
            copy(revset),
        ];
        assert(text::views(args@) =~= duplicate_args(revset@));
        JjRequest { args }
    }

    /// Duplicate revisions onto another.
    pub fn duplicate_onto(revset: &str, destination: &str) -> (res: JjRequest)
        ensures
            res@ == duplicate_onto_args(revset@, destination@),
    {
        let args: Vec<String> = vec![
            copy("duplicate"),
            copy("-r"),
            copy(revset),
            copy("-d"),
            copy(destination),
        ];
        assert(text::views(args@) =~= duplicate_onto_args(revset@, destination@));
        JjRequest { args }
    }

    /// Rebase the subtree rooted at `source` onto `destination`.
    pub fn rebase_source(source: &str, destination: &str) -> (res: JjRequest)
        ensures
            res@ == rebase_source_args(source@, destination@),
    {
        let args: Vec<String> = vec![
            copy("rebase"),
            copy("-s"),
            copy(source),
            copy("-d"),
            copy(destination),
        ];
        assert(text::views(args@) =~= rebase_source_args(source@, destination@));
        JjRequest { args }
    }

    /// Rebase the branch containing `branch` onto `destination`.
    pub fn rebase_branch(branch: &str, destination: &str) -> (res: JjRequest)
        ensures
            res@ == rebase_branch_args(branch@, destination@),
    {
        let args: Vec<String> = vec![
            copy("rebase"),
            copy("-b"),
            copy(branch),
            copy("-d"),
            copy(destination),
        ];
        assert(text::views(args@) =~= rebase_branch_args(branch@, destination@));
        JjRequest { args }
    }

    /// Start a new change on a revision.
    pub fn new_working_copy(revision: &str) -> (res: JjRequest)
        ensures
            res@ == new_working_copy_args(revision@),
    {
        let args: Vec<String> = vec![
            copy("new"),
            copy(revision),
        ];
        assert(text::views(args@) =~= new_working_copy_args(revision@));
        JjRequest { args }
    }

    /// Describe a revision.
    pub fn describe(revision: &str, message: &str) -> (res: JjRequest)
        ensures
            res@ == describe_args(revision@, message@),
    {
        let args: Vec<String> = vec![
            copy("describe"),
            copy("-r"),
            copy(revision),
            copy("-m"),
            copy(message),
        ];
        assert(text::views(args@) =~= describe_args(revision@, message@));
        JjRequest { args }
    }

    /// Summarize the diff between two revisions.
    pub fn changed_paths(from: &str, to: &str) -> (res: JjRequest)
        ensures
            res@ == changed_paths_args(from@, to@),
    {
        let args: Vec<String> = vec![
            copy("--ignore-working-copy"),
            copy("diff"),
            copy("--summary"),
            copy("--from"),
            copy(from),
            copy("--to"),
            copy(to),
        ];
        assert(text::views(args@) =~= changed_paths_args(from@, to@));
        JjRequest { args }
    }

    /// Summarize the diff of a revision against its parents.
    pub fn changed_paths_in(revision: &str) -> (res: JjRequest)
        ensures
            res@ == changed_paths_in_args(revision@),
    {
        let args: Vec<String> = vec![
            copy("--ignore-working-copy"),
            copy("diff"),
            copy("--summary"),
            copy("-r"),
            copy(revision),
        ];
        assert(text::views(args@) =~= changed_paths_in_args(revision@));
        JjRequest { args }
    }

    /// Render the diff between two revisions in git format.
    pub fn diff_git(from: &str, to: &str) -> (res: JjRequest)
        ensures
            res@ == diff_git_args(from@, to@),
    {
        let args: Vec<String> = vec![
            copy("--ignore-working-copy"),
            copy("diff"),
            copy("--git"),
            copy("--from"),
            copy(from),
            copy("--to"),
            copy(to),
        ];
        assert(text::views(args@) =~= diff_git_args(from@, to@));
        JjRequest { args }
    }

    /// Render the diff of a revision in git format.
    pub fn diff_git_rev(revision: &str) -> (res: JjRequest)
        ensures
            res@ == diff_git_rev_args(revision@),
    {
        let args: Vec<String> = vec![
            copy("--ignore-working-copy"),
            copy("diff"),
            copy("--git"),
            copy("-r"),
            copy(revision),
        ];
        assert(text::views(args@) =~= diff_git_rev_args(revision@));
        JjRequest { args }
    }

    /// Ask for the size of the working-copy diff.
    pub fn diff_stat() -> (res: JjRequest)
        ensures
            res@ == diff_stat_args(),
    {
        let args: Vec<String> = vec![
            copy("--ignore-working-copy"),
            copy("diff"),
            copy("--stat"),
            copy("-r"),
            copy("@"),
        ];
        assert(text::views(args@) =~= diff_stat_args());
        JjRequest { args }
    }

    /// List the sparse patterns.
    pub fn sparse_list() -> (res: JjRequest)
        ensures
            res@ == sparse_list_args(),
    {
        let args: Vec<String> = vec![
            copy("sparse"),
            copy("list"),
        ];
        assert(text::views(args@) =~= sparse_list_args());
        JjRequest { args }
    }

    /// List one setting.
    pub fn config_list(name: &str) -> (res: JjRequest)
        ensures
            res@ == config_list_args(name@),
    {
        let args: Vec<String> = vec![
            copy("config"),
            copy("list"),
            copy("--include-defaults"),
            copy(name),
        ];
        assert(text::views(args@) =~= config_list_args(name@));
        JjRequest { args }
    }

    /// List every setting.
    pub fn config_list_all() -> (res: JjRequest)
        ensures
            res@ == config_list_all_args(),
    {
        let args: Vec<String> = vec![
            copy("config"),
            copy("list"),
            copy("--include-defaults"),
        ];
        assert(text::views(args@) =~= config_list_all_args());
        JjRequest { args }
    }

    /// Create a bookmark.
    pub fn bookmark_create(name: &str, revision: &str) -> (res: JjRequest)
        ensures
            res@ == bookmark_create_args(name@, revision@),
    {
        let args: Vec<String> = vec![
            copy("bookmark"),
            copy("create"),
            copy(name),
            copy("-r"),
            copy(revision),
        ];
        assert(text::views(args@) =~= bookmark_create_args(name@, revision@));
        JjRequest { args }
    }

    /// Move a bookmark.
    pub fn bookmark_move(name: &str, revision: &str) -> (res: JjRequest)
        ensures
            res@ == bookmark_move_args(name@, revision@),
    {
        let args: Vec<String> = vec![
            copy("bookmark"),
            copy("move"),
            copy(name),
            copy("--to"),
            copy(revision),
        ];
        assert(text::views(args@) =~= bookmark_move_args(name@, revision@));
        JjRequest { args }
    }

    /// Move what the working copy changes into a revision, which keeps its
    /// message.
    pub fn squash_into(revision: &str) -> (res: JjRequest)
        ensures
            res@ == squash_into_args(revision@),
    {
        let args: Vec<String> = vec![
            copy("squash"),
            copy("--into"),
            copy(revision),
            copy("--use-destination-message"),
        ];
        assert(text::views(args@) =~= squash_into_args(revision@));
        JjRequest { args }
    }

    /// Rebase every visible child of `parent` onto `destination`.
    pub fn rebase_children(parent: &str, destination: &str) -> (res: JjRequest)
        ensures
            res@ == rebase_children_args(parent@, destination@),
    {
        JjRequest::rebase_source(cat3("children(", parent, ")").as_str(), destination)
    }

    /// Abandon commits in a single operation.
    pub fn abandon_commits(commits: &Vec<String>) -> (res: JjRequest)
        ensures
            res@ == abandon_args(text::views(commits@)),
    {
        let args: Vec<String> = vec![copy("abandon"), copy("-r"), joined(commits, " | ")];
        assert(text::views(args@) =~= abandon_args(text::views(commits@)));
        JjRequest { args }
    }

    /// Restore files of the working copy from a revision. Each path is an
    /// exact-match pattern, so that a name with pattern characters restores
    /// that file and no other.
    pub fn restore_paths(from: &str, paths: &Vec<String>) -> (res: JjRequest)
        ensures
            res@ == restore_args(from@, text::views(paths@)),
    {
        broadcast use text::lemma_views_push;

        let mut args: Vec<String> = vec![copy("restore"), copy("--from"), copy(from)];
        let ghost head = seq!["restore"@, "--from"@, from@];
        let ghost all = patterns_of(text::views(paths@));
        assert(text::views(args@) =~= head + all.take(0));
        let mut i: usize = 0;
        while i < paths.len()
            invariant
                i <= paths@.len(),
                all == patterns_of(text::views(paths@)),
                text::views(args@) == head + all.take(i as int),
            decreases paths@.len() - i,
        {
            args.push(fileset_exact_pattern(paths[i].as_str()));
            i = i + 1;
            assert(head + all.take(i as int) == (head + all.take(i - 1)).push(all[i - 1]));
        }
        assert(all.take(i as int) == all);
        JjRequest { args }
    }

    /// Append `paths`, each preceded by `--add`.
    fn add_paths(args: &mut Vec<String>, paths: &Vec<String>)
        ensures
            text::views(final(args)@) == with_flagged(
                text::views(old(args)@),
                "--add"@,
                text::views(paths@),
            ),
    {
        broadcast use text::lemma_views_push;

        let ghost base = text::views(args@);
        let ghost all = text::views(paths@);
        let mut i: usize = 0;
        assert(all.take(0) =~= Seq::<Seq<char>>::empty());
        while i < paths.len()
            invariant
                i <= paths@.len(),
                all == text::views(paths@),
                text::views(args@) == with_flagged(base, "--add"@, all.take(i as int)),
            decreases paths@.len() - i,
        {
            args.push(copy("--add"));
            args.push(copy(paths[i].as_str()));
            i = i + 1;
            assert(all.take(i as int).drop_last() == all.take(i - 1));
        }
        assert(all.take(i as int) == all);
    }

    /// Add sparse patterns.
    pub fn sparse_set(paths: &Vec<String>) -> (res: JjRequest)
        ensures
            res@ == sparse_add_args(text::views(paths@)),
    {
        let mut args: Vec<String> = vec![copy("sparse"), copy("set")];
        assert(text::views(args@) =~= seq!["sparse"@, "set"@]);
        JjRequest::add_paths(&mut args, paths);
        JjRequest { args }
    }

    /// Replace the sparse patterns with exactly `paths`.
    pub fn sparse_set_exact(paths: &Vec<String>) -> (res: JjRequest)
        ensures
            res@ == sparse_exact_args(text::views(paths@)),
    {
        let mut args: Vec<String> = vec![copy("sparse"), copy("set"), copy("--clear")];
        assert(text::views(args@) =~= seq!["sparse"@, "set"@, "--clear"@]);
        JjRequest::add_paths(&mut args, paths);
        JjRequest { args }
    }

    /// Create a workspace, with explicit sparse patterns where they are given.
    pub fn workspace_add(
        workspace: &WorkspaceName,
        root: &str,
        revision: &Option<String>,
        patterns: &Option<String>,
    ) -> (res: JjRequest)
        ensures
            res@ == workspace_add_args(
                workspace@,
                root@,
                text::opt_view(*revision),
                text::opt_view(*patterns),
            ),
    {
        broadcast use text::lemma_views_push;

        let mut args: Vec<String> = vec![
            copy("workspace"),
            copy("add"),
            copy("--name"),
            copy(workspace.as_str()),
        ];
        assert(text::views(args@) =~= seq!["workspace"@, "add"@, "--name"@, workspace@]);
        if let Some(r) = revision {
            args.push(copy("-r"));
            args.push(copy(r.as_str()));
        }
        if let Some(p) = patterns {
            args.push(copy("--sparse-patterns"));
            args.push(copy(p.as_str()));
        }
        args.push(copy(root));
        JjRequest { args }
    }

    /// Resolve one conflicted file in `revision` to the content of `prepared`.
    pub fn resolve_with_prepared_file(revision: &str, path: &str, prepared: &str) -> (res: JjRequest)
        ensures
            res@ == resolve_prepared_args(revision@, path@, prepared@),
    {
        let args: Vec<String> = vec![
            copy("--config"),
            copy("merge-tools.navi-apply.program=cp"),
            copy("--config"),
            cat3(
                "merge-tools.navi-apply.merge-args=[\"",
                prepared,
                "\", \"$output\"]",
            ),
            copy("resolve"),
            copy("-r"),
            copy(revision),
            copy("--tool"),
            copy("navi-apply"),
            fileset_exact_pattern(path),
        ];
        assert(text::views(args@) =~= resolve_prepared_args(revision@, path@, prepared@));
        JjRequest { args }
    }
}

// ---------------------------------------------------------------------------
// Revsets

/// Revisions in `ancestor` that are ancestors of `descendant`.
pub open spec fn ancestor_revset(ancestor: Seq<char>, descendant: Seq<char>) -> Seq<char> {
    "("@ + ancestor + ") & ::("@ + descendant + ")"@
}

/// Empty commits among `revision`.
pub open spec fn empty_revset(revision: Seq<char>) -> Seq<char> {
    "("@ + revision + ") & empty()"@
}

/// Conflicted commits among `revision`.
pub open spec fn conflicted_revset(revision: Seq<char>) -> Seq<char> {
    revision + " & conflicts()"@
}

/// The children of a revision.
pub open spec fn children_revset(revision: Seq<char>) -> Seq<char> {
    "children("@ + revision + ")"@
}

/// The tips of what stands on some commits, these commits included.
pub open spec fn tips_revset(commits: Seq<Seq<char>>) -> Seq<char> {
    "heads(("@ + text::join(commits, " | "@) + ")::)"@
}

impl JjRequest {
    /// Ask for the children of a revision.
    pub fn children(revision: &str) -> (res: JjRequest)
        ensures
            res@ == revisions_args(children_revset(revision@)),
    {
        JjRequest::revisions(cat3("children(", revision, ")").as_str())
    }

    /// Ask for the tips of what stands on some commits.
    pub fn tips(commits: &Vec<String>) -> (res: JjRequest)
        ensures
            res@ == revisions_args(tips_revset(text::views(commits@))),
    {
        JjRequest::revisions(cat3("heads((", joined(commits, " | ").as_str(), ")::)").as_str())
    }

    /// Start a fresh working copy on some commits.
    pub fn new_working_copy_on(commits: &Vec<String>) -> (res: JjRequest)
        ensures
            res@ == new_working_copy_args(text::join(text::views(commits@), " | "@)),
    {
        JjRequest::new_working_copy(joined(commits, " | ").as_str())
    }

    /// Ask whether `ancestor` is an ancestor of, or equal to, `descendant`: it
    /// is if a revision is listed.
    pub fn is_ancestor(ancestor: &str, descendant: &str) -> (res: JjRequest)
        ensures
            res@ == revisions_args(ancestor_revset(ancestor@, descendant@)),
    {
        let mut revset = cat3("(", ancestor, ") & ::(");
        revset.append(descendant);
        revset.append(")");
        JjRequest::revisions(revset.as_str())
    }

    /// Ask whether a revision has an empty diff: it has if a revision is
    /// listed.
    pub fn is_empty_commit(revision: &str) -> (res: JjRequest)
        ensures
            res@ == revisions_args(empty_revset(revision@)),
    {
        JjRequest::revisions(cat3("(", revision, ") & empty()").as_str())
    }

    /// Ask whether a revision has conflicts: it has if a revision is listed.
    pub fn has_conflicts(revision: &str) -> (res: JjRequest)
        ensures
            res@ == revisions_args(conflicted_revset(revision@)),
    {
        JjRequest::revisions(cat2(revision, " & conflicts()").as_str())
    }
}

// ---------------------------------------------------------------------------
// Laws

proof fn lemma_flagged(args: Seq<Seq<char>>, flag: Seq<char>, more: Seq<Seq<char>>, i: int)
    ensures
        with_flagged(args, flag, more).len() == args.len() + 2 * more.len(),
        with_flagged(args, flag, more).take(args.len() as int) == args,
        0 <= i < more.len() ==> with_flagged(args, flag, more)[args.len() + 2 * i] == flag,
        0 <= i < more.len() ==> with_flagged(args, flag, more)[args.len() + 2 * i + 1] == more[i],
    decreases more.len(),
{
    let all = with_flagged(args, flag, more);
    if more.len() > 0 {
        let before = with_flagged(args, flag, more.drop_last());
        lemma_flagged(args, flag, more.drop_last(), i);
        assert(all.take(args.len() as int) =~= before.take(args.len() as int));
        if 0 <= i < more.len() - 1 {
            assert(all[args.len() + 2 * i] == before[args.len() + 2 * i]);
            assert(all[args.len() + 2 * i + 1] == before[args.len() + 2 * i + 1]);
        }
    } else {
        assert(all.take(args.len() as int) =~= args);
    }
}

/// Every path that is shown has an argument of its own, each behind its flag and
/// in their order; showing exactly these paths clears the others first.
pub proof fn law_every_pattern_is_passed_on(paths: Seq<Seq<char>>, i: int)
    ensures
        sparse_add_args(paths).len() == 2 + 2 * paths.len(),
        sparse_add_args(paths).take(2) == seq!["sparse"@, "set"@],
        sparse_exact_args(paths).len() == 3 + 2 * paths.len(),
        sparse_exact_args(paths).take(3) == seq!["sparse"@, "set"@, "--clear"@],
        0 <= i < paths.len() ==> sparse_add_args(paths)[2 + 2 * i] == "--add"@ && sparse_add_args(
            paths,
        )[3 + 2 * i] == paths[i],
        0 <= i < paths.len() ==> sparse_exact_args(paths)[3 + 2 * i] == "--add"@
            && sparse_exact_args(paths)[4 + 2 * i] == paths[i],
{
    let plain = seq!["sparse"@, "set"@];
    let clear = seq!["sparse"@, "set"@, "--clear"@];
    lemma_flagged(plain, "--add"@, paths, i);
    lemma_flagged(clear, "--add"@, paths, i);
    assert(plain.len() == 2 && clear.len() == 3);
    assert(2 + 2 * i + 1 == 3 + 2 * i && 3 + 2 * i + 1 == 4 + 2 * i);
}

/// Every path that is restored is named, exactly and in its order, and they are
/// restored from the given revision.
pub proof fn law_every_path_is_restored(from: Seq<char>, paths: Seq<Seq<char>>, i: int)
    ensures
        restore_args(from, paths).len() == 3 + paths.len(),
        restore_args(from, paths)[2] == from,
        0 <= i < paths.len() ==> restore_args(from, paths)[3 + i] == "file:"@ + revset::quoted(
            paths[i],
        ),
{
}

/// Commits are abandoned together: the revset of a batch is that of its parts
/// with a union between them.
pub proof fn law_abandoned_commits_are_united(some: Seq<Seq<char>>, more: Seq<Seq<char>>)
    requires
        some.len() > 0,
        more.len() > 0,
    ensures
        abandon_args(some + more).len() == 3,
        abandon_args(some + more)[2] == abandon_args(some)[2] + " | "@ + abandon_args(more)[2],
        forall|id: Seq<char>| #[trigger] abandon_args(seq![id]) == seq!["abandon"@, "-r"@, id],
        tips_revset(some) == "heads(("@ + abandon_args(some)[2] + ")::)"@,
{
    text::law_join_separates(some, more, " | "@);
    assert forall|id: Seq<char>| #[trigger] abandon_args(seq![id]) == seq!["abandon"@, "-r"@, id] by {
        assert(text::join(seq![id], " | "@) == id);
    }
}

/// The questions about revisions: which of the first are ancestors of the
/// second, which are empty, which are conflicted, and which are the children.
pub proof fn law_questions_about_revisions(a: Seq<char>, b: Seq<char>)
    ensures
        ancestor_revset(a, b) == "("@ + a + ") & ::("@ + b + ")"@,
        empty_revset(a) == "("@ + a + ") & empty()"@,
        conflicted_revset(a) == a + " & conflicts()"@,
        children_revset(a) == "children("@ + a + ")"@,
        rebase_children_args(a, b) == seq!["rebase"@, "-s"@, children_revset(a), "-d"@, b],
{
}

} // verus!
