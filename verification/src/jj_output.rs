//! Reading what `jj` printed, and what to do when it failed.

use vstd::prelude::*;

use crate::error::{self, Error, ErrorKind, Result};
use crate::jj::JjRequest;
use crate::order::{self, sorted_set};
use crate::revset::{self, unquote_template_string};
use crate::text::{
    self, cat2, cat3, copy, cut_once, filled_lines_of, has_text, last_digit_run_of,
    leading_digits_of, lines_of, parse_number, pieces_of, same, trimmed, words_of,
};
use crate::types::{
    self, LaneRev, RevView, WorkspaceDiffSnapshot, WorkspaceDiffStatus, WorkspaceFreshnessSnapshot,
    WorkspaceFreshnessStatus, WorkspaceName,
};

verus! {

// ---------------------------------------------------------------------------
// Workspaces and revisions

/// One workspace that `jj` lists.
#[derive(Debug, PartialEq, Eq)]
pub struct JjWorkspaceListEntry {
    /// Workspace name.
    pub name: WorkspaceName,
    /// Whether it is the workspace that `jj` ran in.
    pub is_current: bool,
    /// Working-copy commit (short form).
    pub commit_id: String,
    /// Working-copy change (short form).
    pub change_id: String,
    /// First line of the description.
    pub message: String,
}

/// The texts of a listed workspace.
pub struct WorkspaceView {
    pub name: Seq<char>,
    pub is_current: bool,
    pub rev: RevView,
}

impl View for JjWorkspaceListEntry {
    type V = WorkspaceView;

    open spec fn view(&self) -> WorkspaceView {
        WorkspaceView {
            name: self.name@,
            is_current: self.is_current,
            rev: RevView {
                commit_id: self.commit_id@,
                change_id: self.change_id@,
                message: self.message@,
            },
        }
    }
}

/// The error for a line that does not have the fields it should.
pub open spec fn bad_line(line: Seq<char>) -> error::ErrorView {
    error::about(ErrorKind::InvalidJjWorkspaceListEntry, line)
}

/// The revision that a line describes: three fields with NUL between them,
/// the last up to the end of the line.
pub open spec fn revision_of(line: Seq<char>) -> std::result::Result<RevView, error::ErrorView> {
    match text::split_once(line, "\0"@) {
        None => Err(bad_line(line)),
        Some((commit_id, rest)) => match text::split_once(rest, "\0"@) {
            None => Err(bad_line(line)),
            Some((change_id, message)) => Ok(RevView { commit_id, change_id, message }),
        },
    }
}

/// The workspace that a line describes: its name, possibly quoted, `0` or `1`
/// for being the current one, and its revision, with NUL between the fields.
pub open spec fn workspace_of(line: Seq<char>) -> std::result::Result<
    WorkspaceView,
    error::ErrorView,
> {
    match text::split_once(line, "\0"@) {
        None => Err(bad_line(line)),
        Some((name, rest)) => match text::split_once(rest, "\0"@) {
            None => Err(bad_line(line)),
            Some((flag, rest)) => match revision_of(rest) {
                Err(_) => Err(bad_line(line)),
                Ok(rev) => if flag != "0"@ && flag != "1"@ {
                    Err(bad_line(line))
                } else if !types::valid_name(revset::unquoted(name)) {
                    Err(
                        error::about(ErrorKind::InvalidWorkspaceName, revset::unquoted(name)),
                    )
                } else {
                    Ok(
                        WorkspaceView {
                            name: revset::unquoted(name),
                            is_current: flag == "1"@,
                            rev,
                        },
                    )
                },
            },
        },
    }
}

/// The revisions that a list of lines describes, or the first error.
pub open spec fn revisions_of(lines: Seq<Seq<char>>) -> std::result::Result<
    Seq<RevView>,
    error::ErrorView,
>
    decreases lines.len(),
{
    if lines.len() == 0 {
        Ok(Seq::empty())
    } else {
        match revisions_of(lines.drop_last()) {
            Err(e) => Err(e),
            Ok(front) => match revision_of(lines.last()) {
                Err(e) => Err(e),
                Ok(rev) => Ok(front.push(rev)),
            },
        }
    }
}

/// The workspaces that a list of lines describes, or the first error.
pub open spec fn workspaces_of(lines: Seq<Seq<char>>) -> std::result::Result<
    Seq<WorkspaceView>,
    error::ErrorView,
>
    decreases lines.len(),
{
    if lines.len() == 0 {
        Ok(Seq::empty())
    } else {
        match workspaces_of(lines.drop_last()) {
            Err(e) => Err(e),
            Ok(front) => match workspace_of(lines.last()) {
                Err(e) => Err(e),
                Ok(workspace) => Ok(front.push(workspace)),
            },
        }
    }
}

/// The views of a list of revisions.
pub open spec fn rev_views(revisions: Seq<LaneRev>) -> Seq<RevView> {
    revisions.map_values(|r: LaneRev| r@)
}

/// The views of a list of workspaces.
pub open spec fn workspace_views(workspaces: Seq<JjWorkspaceListEntry>) -> Seq<WorkspaceView> {
    workspaces.map_values(|w: JjWorkspaceListEntry| w@)
}

/// Read one revision line.
pub fn parse_revision_line(line: &str) -> (res: Result<LaneRev>)
    ensures
        match res {
            Ok(rev) => revision_of(line@) == Ok::<RevView, error::ErrorView>(rev@),
            Err(e) => revision_of(line@) == Err::<RevView, error::ErrorView>(e@),
        },
{
    let (commit_id, rest) = match cut_once(line, "\0") {
        Some(parts) => parts,
        None => {
            return Err(Error::InvalidJjWorkspaceListEntry(copy(line)));
        },
    };
    match cut_once(rest.as_str(), "\0") {
        Some((change_id, message)) => Ok(LaneRev { commit_id, change_id, message }),
        None => Err(Error::InvalidJjWorkspaceListEntry(copy(line))),
    }
}

/// Read one workspace line.
pub fn parse_workspace_line(line: &str) -> (res: Result<JjWorkspaceListEntry>)
    ensures
        match res {
            Ok(workspace) => workspace_of(line@) == Ok::<WorkspaceView, error::ErrorView>(
                workspace@,
            ),
            Err(e) => workspace_of(line@) == Err::<WorkspaceView, error::ErrorView>(e@),
        },
{
    let (name, rest) = match cut_once(line, "\0") {
        Some(parts) => parts,
        None => {
            return Err(Error::InvalidJjWorkspaceListEntry(copy(line)));
        },
    };
    let (flag, rest) = match cut_once(rest.as_str(), "\0") {
        Some(parts) => parts,
        None => {
            return Err(Error::InvalidJjWorkspaceListEntry(copy(line)));
        },
    };
    let rev = match parse_revision_line(rest.as_str()) {
        Ok(rev) => rev,
        Err(_) => {
            return Err(Error::InvalidJjWorkspaceListEntry(copy(line)));
        },
    };
    let is_current = same(flag.as_str(), "1");
    if !is_current && !same(flag.as_str(), "0") {
        return Err(Error::InvalidJjWorkspaceListEntry(copy(line)));
    }
    match WorkspaceName::new(unquote_template_string(name.as_str())) {
        Ok(name) => Ok(
            JjWorkspaceListEntry {
                name,
                is_current,
                commit_id: rev.commit_id,
                change_id: rev.change_id,
                message: rev.message,
            },
        ),
        Err(e) => Err(e),
    }
}

/// Read the output of a revision request.
pub fn parse_revisions(output: &str) -> (res: Result<Vec<LaneRev>>)
    ensures
        match res {
            Ok(revisions) => revisions_of(text::filled_lines(output@)) == Ok::<
                Seq<RevView>,
                error::ErrorView,
            >(rev_views(revisions@)),
            Err(e) => revisions_of(text::filled_lines(output@)) == Err::<
                Seq<RevView>,
                error::ErrorView,
            >(e@),
        },
{
    let lines = filled_lines_of(output);
    let ghost all = text::views(lines@);
    let mut out: Vec<LaneRev> = Vec::new();
    let mut i: usize = 0;
    proof {
        assert(all.take(0) =~= Seq::<Seq<char>>::empty());
        assert(rev_views(out@) =~= Seq::<RevView>::empty());
    }
    while i < lines.len()
        invariant
            i <= lines@.len(),
            all == text::views(lines@),
            all == text::filled_lines(output@),
            revisions_of(all.take(i as int)) == Ok::<Seq<RevView>, error::ErrorView>(
                rev_views(out@),
            ),
        decreases lines@.len() - i,
    {
        let ghost before = out@;
        proof {
            assert(all.take(i + 1).drop_last() == all.take(i as int));
            assert(all.take(i + 1).last() == lines@[i as int]@);
        }
        match parse_revision_line(lines[i].as_str()) {
            Ok(rev) => {
                out.push(rev);
                assert(rev_views(out@) =~= rev_views(before).push(rev@));
            },
            Err(e) => {
                proof {
                    lemma_revisions_error(all, i + 1);
                }
                return Err(e);
            },
        }
        i = i + 1;
    }
    assert(all.take(i as int) == all);
    Ok(out)
}

proof fn lemma_revisions_error(all: Seq<Seq<char>>, n: int)
    requires
        0 <= n <= all.len(),
        revisions_of(all.take(n)) is Err,
    ensures
        revisions_of(all) == revisions_of(all.take(n)),
    decreases all.len(),
{
    if n < all.len() {
        assert(all.drop_last().take(n) == all.take(n));
        lemma_revisions_error(all.drop_last(), n);
    } else {
        assert(all.take(n) == all);
    }
}

proof fn lemma_workspaces_error(all: Seq<Seq<char>>, n: int)
    requires
        0 <= n <= all.len(),
        workspaces_of(all.take(n)) is Err,
    ensures
        workspaces_of(all) == workspaces_of(all.take(n)),
    decreases all.len(),
{
    if n < all.len() {
        assert(all.drop_last().take(n) == all.take(n));
        lemma_workspaces_error(all.drop_last(), n);
    } else {
        assert(all.take(n) == all);
    }
}

/// Read the output of a workspace list.
pub fn parse_workspaces(output: &str) -> (res: Result<Vec<JjWorkspaceListEntry>>)
    ensures
        match res {
            Ok(workspaces) => workspaces_of(text::filled_lines(output@)) == Ok::<
                Seq<WorkspaceView>,
                error::ErrorView,
            >(workspace_views(workspaces@)),
            Err(e) => workspaces_of(text::filled_lines(output@)) == Err::<
                Seq<WorkspaceView>,
                error::ErrorView,
            >(e@),
        },
{
    let lines = filled_lines_of(output);
    let ghost all = text::views(lines@);
    let mut out: Vec<JjWorkspaceListEntry> = Vec::new();
    let mut i: usize = 0;
    proof {
        assert(all.take(0) =~= Seq::<Seq<char>>::empty());
        assert(workspace_views(out@) =~= Seq::<WorkspaceView>::empty());
    }
    while i < lines.len()
        invariant
            i <= lines@.len(),
            all == text::views(lines@),
            all == text::filled_lines(output@),
            workspaces_of(all.take(i as int)) == Ok::<Seq<WorkspaceView>, error::ErrorView>(
                workspace_views(out@),
            ),
        decreases lines@.len() - i,
    {
        let ghost before = out@;
        proof {
            assert(all.take(i + 1).drop_last() == all.take(i as int));
            assert(all.take(i + 1).last() == lines@[i as int]@);
        }
        match parse_workspace_line(lines[i].as_str()) {
            Ok(workspace) => {
                out.push(workspace);
                assert(workspace_views(out@) =~= workspace_views(before).push(workspace@));
            },
            Err(e) => {
                proof {
                    lemma_workspaces_error(all, i + 1);
                }
                return Err(e);
            },
        }
        i = i + 1;
    }
    assert(all.take(i as int) == all);
    Ok(out)
}

/// Read the name of the current workspace: the first line that is not empty.
/// Without one, the current directory belongs to no workspace.
pub fn parse_current_workspace(output: &str) -> (res: Result<WorkspaceName>)
    ensures
        ({
            let lines = text::filled_lines(output@);
            if lines.len() == 0 {
                res matches Err(e) && e@ == error::plain(ErrorKind::OrphanedWorkspace)
            } else {
                let name = revset::unquoted(lines[0]);
                match res {
                    Ok(parsed) => types::valid_name(name) && parsed@ == name,
                    Err(e) => !types::valid_name(name) && e@ == error::about(
                        ErrorKind::InvalidWorkspaceName,
                        name,
                    ),
                }
            }
        }),
{
    let lines = filled_lines_of(output);
    assert(text::views(lines@).len() == lines@.len());
    if lines.len() == 0 {
        return Err(Error::OrphanedWorkspace);
    }
    assert(text::views(lines@)[0] == lines@[0]@);
    WorkspaceName::new(unquote_template_string(lines[0].as_str()))
}

/// Read the directory of a workspace. An empty answer is an error.
pub fn parse_workspace_root(workspace: &WorkspaceName, output: &str) -> (res: Result<String>)
    ensures
        ({
            let root = text::trim(output@);
            match res {
                Ok(path) => root.len() > 0 && path@ == root,
                Err(e) => root.len() == 0 && e@ == error::about2(
                    ErrorKind::JjCommandFailed,
                    "jj workspace root --name "@ + workspace@,
                    "jj returned an empty workspace root"@,
                ),
            }
        }),
{
    let root = trimmed(output);
    if text::char_count(root.as_str()) == 0 {
        Err(
            Error::JjCommandFailed {
                command: cat2("jj workspace root --name ", workspace.as_str()),
                stderr: copy("jj returned an empty workspace root"),
            },
        )
    } else {
        Ok(root)
    }
}

// ---------------------------------------------------------------------------
// Diffs

/// The paths that one line of a diff summary names: what follows the first
/// space, and both sides of a rename.
pub open spec fn summary_paths(line: Seq<char>) -> Seq<Seq<char>> {
    match text::split_once(line, " "@) {
        None => Seq::empty(),
        Some((_, path)) => match rename_sides(path) {
            Some((old, new)) => seq![old, new],
            None => seq![path],
        },
    }
}

/// The two paths that `prefix{old => new}suffix` stands for.
pub open spec fn rename_sides(path: Seq<char>) -> Option<(Seq<char>, Seq<char>)> {
    match text::split_once(path, "{"@) {
        None => None,
        Some((prefix, rest)) => match text::split_once(rest, "}"@) {
            None => None,
            Some((group, suffix)) => match text::split_once(group, " => "@) {
                None => None,
                Some((old, new)) => Some((prefix + old + suffix, prefix + new + suffix)),
            },
        },
    }
}

/// The paths that the lines of a diff summary name, in order.
pub open spec fn all_summary_paths(lines: Seq<Seq<char>>) -> Seq<Seq<char>>
    decreases lines.len(),
{
    if lines.len() == 0 {
        Seq::empty()
    } else {
        all_summary_paths(lines.drop_last()) + summary_paths(lines.last())
    }
}

fn rename_parts(path: &str) -> (res: Option<(String, String)>)
    ensures
        match res {
            Some((old, new)) => rename_sides(path@) == Some((old@, new@)),
            None => rename_sides(path@) is None,
        },
{
    match cut_once(path, "{") {
        None => None,
        Some((prefix, rest)) => match cut_once(rest.as_str(), "}") {
            None => None,
            Some((group, suffix)) => match cut_once(group.as_str(), " => ") {
                None => None,
                Some((old, new)) => Some(
                    (
                        cat3(prefix.as_str(), old.as_str(), suffix.as_str()),
                        cat3(prefix.as_str(), new.as_str(), suffix.as_str()),
                    ),
                ),
            },
        },
    }
}

/// Read the paths of a diff summary: each once, in dictionary order.
pub fn parse_diff_summary_paths(output: &str) -> (res: Vec<String>)
    ensures
        order::sorted_set_of(text::views(res@), all_summary_paths(text::lines(output@))),
{
    broadcast use text::lemma_views_push;

    let lines = lines_of(output);
    let ghost all = text::views(lines@);
    let mut paths: Vec<String> = Vec::new();
    let mut i: usize = 0;
    proof {
        assert(all.take(0) =~= Seq::<Seq<char>>::empty());
        text::lemma_views_empty(paths@);
    }
    while i < lines.len()
        invariant
            i <= lines@.len(),
            all == text::views(lines@),
            text::views(paths@) == all_summary_paths(all.take(i as int)),
        decreases lines@.len() - i,
    {
        let ghost before = text::views(paths@);
        proof {
            assert(all.take(i + 1).drop_last() == all.take(i as int));
            assert(all.take(i + 1).last() == lines@[i as int]@);
        }
        if let Some((_, path)) = cut_once(lines[i].as_str(), " ") {
            if let Some((old, new)) = rename_parts(path.as_str()) {
                let ghost pair = seq![old@, new@];
                paths.push(old);
                paths.push(new);
                assert(text::views(paths@) =~= before + pair);
            } else {
                let ghost one = seq![path@];
                paths.push(path);
                assert(text::views(paths@) =~= before + one);
            }
        } else {
            assert(before + Seq::<Seq<char>>::empty() =~= before);
        }
        i = i + 1;
    }
    assert(all.take(i as int) == all);
    sorted_set(&paths)
}

/// The last of the lines that contains `sub`.
pub open spec fn last_line_with(lines: Seq<Seq<char>>, sub: Seq<char>) -> Option<Seq<char>>
    decreases lines.len(),
{
    if lines.len() == 0 {
        None
    } else if text::contains(lines.last(), sub) {
        Some(lines.last())
    } else {
        last_line_with(lines.drop_last(), sub)
    }
}

/// The last number before the first `marker` in a line; not known where there
/// is no `marker`.
pub open spec fn number_before_in(line: Seq<char>, marker: Seq<char>) -> Option<u32> {
    match text::split_once(line, marker) {
        Some((before, _)) => match text::parsed_number(
            text::last_digit_run(before),
            (u32::MAX + 1) as nat,
        ) {
            Some(n) => Some(n as u32),
            None => None,
        },
        None => None,
    }
}

/// The statistics in the output of a diff-stat request.
pub open spec fn diff_stat_of(output: Seq<char>) -> WorkspaceDiffSnapshot {
    match last_line_with(text::lines(output), " changed"@) {
        None => WorkspaceDiffSnapshot::nothing_known(),
        Some(line) => WorkspaceDiffSnapshot {
            status: WorkspaceDiffStatus::Available,
            files_changed: number_before_in(line, " file"@),
            insertions: number_before_in(line, " insertion"@),
            deletions: number_before_in(line, " deletion"@),
        },
    }
}

fn number_before(line: &str, marker: &str) -> (res: Option<u32>)
    ensures
        res == number_before_in(line@, marker@),
{
    let before = match cut_once(line, marker) {
        Some((before, _)) => before,
        None => {
            return None;
        },
    };
    let run = last_digit_run_of(before.as_str());
    match parse_number(run.as_str(), 0xffff_ffff) {
        Some(n) => {
            proof {
                lemma_number_bound(run@, (u32::MAX + 1) as nat);
            }
            Some(n as u32)
        },
        None => None,
    }
}

proof fn lemma_number_bound(s: Seq<char>, bound: nat)
    ensures
        text::parsed_number(s, bound) matches Some(n) ==> n < bound,
{
}

/// Read the statistics of a diff-stat request.
pub fn parse_diff_stat(output: &str) -> (res: WorkspaceDiffSnapshot)
    ensures
        res == diff_stat_of(output@),
{
    let lines = lines_of(output);
    let ghost all = text::views(lines@);
    let mut i: usize = lines.len();
    assert(all.take(i as int) == all);
    while 0 < i
        invariant
            i <= lines@.len(),
            all == text::views(lines@),
            all == text::lines(output@),
            last_line_with(all, " changed"@) == last_line_with(all.take(i as int), " changed"@),
        decreases i,
    {
        let line = lines[i - 1].as_str();
        assert(all.take(i as int).last() == line@);
        assert(all.take(i as int).drop_last() == all.take(i - 1));
        if has_text(line, " changed") {
            return WorkspaceDiffSnapshot {
                status: WorkspaceDiffStatus::Available,
                files_changed: number_before(line, " file"),
                insertions: number_before(line, " insertion"),
                deletions: number_before(line, " deletion"),
            };
        }
        i = i - 1;
    }
    WorkspaceDiffSnapshot::unknown()
}

// ---------------------------------------------------------------------------
// Versions

/// A version of `jj`.
#[derive(Clone, Copy, Debug, PartialEq, Eq, Structural)]
pub struct JjVersion {
    pub major: u64,
    pub minor: u64,
    pub patch: u64,
}

/// The number at the start of a version component.
pub open spec fn component_of(component: Seq<char>) -> Option<u64> {
    match text::parsed_number(text::leading_digits(component), (u64::MAX + 1) as nat) {
        Some(n) => Some(n as u64),
        None => None,
    }
}

/// The version that a token spells: the numbers at the start of its first
/// three parts, with dots between the parts.
pub open spec fn token_version(token: Seq<char>) -> Option<JjVersion> {
    let parts = text::split(token, '.');
    if parts.len() < 3 {
        None
    } else {
        match (component_of(parts[0]), component_of(parts[1]), component_of(parts[2])) {
            (Some(major), Some(minor), Some(patch)) => Some(JjVersion { major, minor, patch }),
            _ => None,
        }
    }
}

/// The first of the words, from position `i` on, that starts with a digit.
pub open spec fn numeric_word_from(words: Seq<Seq<char>>, i: int) -> Option<Seq<char>>
    decreases words.len() - i,
{
    if i < 0 || i >= words.len() {
        None
    } else if words[i].len() > 0 && text::is_digit(words[i][0]) {
        Some(words[i])
    } else {
        numeric_word_from(words, i + 1)
    }
}

/// The version in the output of a version request.
pub open spec fn version_of(output: Seq<char>) -> Option<JjVersion> {
    match numeric_word_from(text::words(output), 0) {
        Some(token) => token_version(token),
        None => None,
    }
}

/// Being older than the oldest supported version, 0.39.0.
pub open spec fn too_old(version: JjVersion) -> bool {
    version.major == 0 && version.minor < 39
}

fn parse_version_component(component: &str) -> (res: Option<u64>)
    ensures
        res == component_of(component@),
{
    let digits = leading_digits_of(component);
    let n = parse_number(digits.as_str(), u64::MAX);
    proof {
        lemma_number_bound(digits@, (u64::MAX + 1) as nat);
    }
    n
}

/// Read the version of `jj`.
pub fn parse_jj_version(output: &str) -> (res: Option<JjVersion>)
    ensures
        res == version_of(output@),
{
    let words = words_of(output);
    let ghost all = text::views(words@);
    let mut i: usize = 0;
    while i < words.len()
        invariant
            i <= words@.len(),
            all == text::views(words@),
            all == text::words(output@),
            version_of(output@) == (match numeric_word_from(all, i as int) {
                Some(token) => token_version(token),
                None => None,
            }),
        decreases words@.len() - i,
    {
        let word = words[i].as_str();
        let chars = text::chars_of(word);
        assert(all[i as int] == word@);
        if chars.len() > 0 && text::char_is_digit(chars[0]) {
            let parts = pieces_of(word, '.');
            assert(text::views(parts@).len() == parts@.len());
            if parts.len() < 3 {
                return None;
            }
            assert(text::views(parts@)[0] == parts@[0]@);
            assert(text::views(parts@)[1] == parts@[1]@);
            assert(text::views(parts@)[2] == parts@[2]@);
            let major = parse_version_component(parts[0].as_str());
            let minor = parse_version_component(parts[1].as_str());
            let patch = parse_version_component(parts[2].as_str());
            return match (major, minor, patch) {
                (Some(major), Some(minor), Some(patch)) => Some(JjVersion { major, minor, patch }),
                _ => None,
            };
        }
        i = i + 1;
    }
    None
}

/// Refuse a `jj` that is too old, or whose version cannot be told, unless the
/// check is switched off.
pub fn ensure_supported_version(skip_check: bool, output: &str) -> (res: Result<()>)
    ensures
        match res {
            Ok(_) => skip_check || (version_of(output@) matches Some(v) && !too_old(v)),
            Err(e) => !skip_check && (version_of(output@) matches Some(v) ==> too_old(v)) && e@
                == error::about2(
                ErrorKind::UnsupportedJjVersion,
                text::trim(output@),
                "0.39.0"@,
            ),
        },
{
    if skip_check {
        return Ok(());
    }
    if let Some(version) = parse_jj_version(output) {
        if version.major > 0 || version.minor >= 39 {
            return Ok(());
        }
    }
    Err(Error::UnsupportedJjVersion { found: trimmed(output), minimum: copy("0.39.0") })
}

// ---------------------------------------------------------------------------
// Sparse patterns

/// Lines without surrounding whitespace that are not empty.
pub open spec fn trimmed_lines(lines: Seq<Seq<char>>) -> Seq<Seq<char>> {
    lines.map_values(|l: Seq<char>| text::trim(l)).filter(text::is_filled())
}

/// Whether a workspace is sparse: its patterns are not just the root.
pub fn sparse_is_active(output: &str) -> (res: bool)
    ensures
        res == (trimmed_lines(text::lines(output@)) != seq!["."@]),
{
    broadcast use text::lemma_views_push;

    let lines = lines_of(output);
    let ghost all = text::lines(output@).map_values(|l: Seq<char>| text::trim(l));
    let ghost keep = text::is_filled();
    let mut patterns: Vec<String> = Vec::new();
    let mut i: usize = 0;
    proof {
        reveal(Seq::filter);
        assert(all.take(0).filter(keep) =~= Seq::<Seq<char>>::empty());
        text::lemma_views_empty(patterns@);
        assert(text::views(lines@).len() == lines@.len());
    }
    while i < lines.len()
        invariant
            i <= lines@.len(),
            keep == text::is_filled(),
            all == text::views(lines@).map_values(|l: Seq<char>| text::trim(l)),
            text::views(patterns@) == all.take(i as int).filter(keep),
        decreases lines@.len() - i,
    {
        let line = trimmed(lines[i].as_str());
        proof {
            reveal(Seq::filter);
            assert(all.take(i + 1).drop_last() == all.take(i as int));
            assert(all.take(i + 1).last() == line@);
        }
        if text::char_count(line.as_str()) > 0 {
            patterns.push(line);
        }
        i = i + 1;
    }
    proof {
        assert(all.take(i as int) == all);
        assert(text::views(patterns@).len() == patterns@.len());
    }
    if patterns.len() == 1 {
        assert(text::views(patterns@) =~= seq![patterns@[0]@]);
        let root = same(patterns[0].as_str(), ".");
        assert(seq!["."@][0] == "."@);
        !root
    } else {
        true
    }
}

// ---------------------------------------------------------------------------
// Failures and staleness

/// What `str::to_lowercase` makes of a text.
pub uninterp spec fn lowercase_text(s: Seq<char>) -> Seq<char>;

/// `str::to_lowercase`. The result is a function of the text.
#[verifier::external_body]
fn lowercase(s: &str) -> (res: String)
    ensures
        res@ == lowercase_text(s@),
{
    s.to_lowercase()
}

/// A lower-case report speaks of a stale working copy.
pub open spec fn names_staleness(lower: Seq<char>) -> bool {
    text::contains(lower, "stale"@) && text::contains(lower, "working copy"@)
}

/// Whether a lower-case report speaks of a stale working copy.
pub fn lowercase_reports_stale(lower: &str) -> (res: bool)
    ensures
        res == names_staleness(lower@),
{
    has_text(lower, "stale") && has_text(lower, "working copy")
}

/// Whether an error output speaks of a stale working copy.
pub fn stderr_reports_stale(stderr: &str) -> (res: bool)
    ensures
        res == names_staleness(lowercase_text(stderr@)),
{
    lowercase_reports_stale(lowercase(stderr).as_str())
}

/// Whether a request is the one that makes a stale working copy current.
pub fn is_update_stale_command(request: &JjRequest) -> (res: bool)
    ensures
        res == request@.contains("update-stale"@),
{
    let mut i: usize = 0;
    while i < request.args.len()
        invariant
            i <= request.args@.len(),
            forall|k: int| 0 <= k < i ==> #[trigger] request@[k] != "update-stale"@,
        decreases request.args@.len() - i,
    {
        assert(request@[i as int] == request.args@[i as int]@);
        if same(request.args[i].as_str(), "update-stale") {
            return true;
        }
        i = i + 1;
    }
    false
}

/// Whether a failed request is to be tried again after making the working copy
/// current: it failed because that was stale, and is not itself the request to
/// do so. The failed attempt changed nothing, so that trying again is safe.
pub fn should_recover_stale(request: &JjRequest, stderr: &str) -> (res: bool)
    ensures
        res == (names_staleness(lowercase_text(stderr@)) && !request@.contains("update-stale"@)),
{
    stderr_reports_stale(stderr) && !is_update_stale_command(request)
}

/// Whether a failed snapshot is to be tried again after making the working
/// copy current.
pub fn snapshot_was_stale(stderr: &str) -> (res: bool)
    ensures
        res == text::contains(lowercase_text(stderr@), "stale"@),
{
    has_text(lowercase(stderr).as_str(), "stale")
}

/// What is known while a request runs that recovers a stale working copy.
#[derive(Clone, Copy, Debug, PartialEq, Eq, Structural)]
pub struct Recovery {
    /// The request ran.
    pub ran: bool,
    /// It failed because the working copy is stale.
    pub stale: bool,
    /// Whether the working copy was made current; none before that was tried.
    pub updated: Option<bool>,
    /// The request ran a second time.
    pub ran_again: bool,
}

/// What to do next with such a request.
#[derive(Clone, Copy, Debug, PartialEq, Eq, Structural)]
pub enum RecoveryStep {
    /// Run it.
    Run,
    /// Make the working copy current.
    UpdateStale,
    /// Run it a second time.
    RunAgain,
    /// What the first run gave is the answer.
    UseFirst,
    /// What the second run gave is the answer.
    UseSecond,
}

/// A stale working copy is recovered once, and the request then tried once
/// more; where it cannot be recovered, the first failure stands.
pub open spec fn recovery_next(facts: Recovery) -> RecoveryStep {
    if !facts.ran {
        RecoveryStep::Run
    } else if !facts.stale {
        RecoveryStep::UseFirst
    } else {
        match facts.updated {
            None => RecoveryStep::UpdateStale,
            Some(false) => RecoveryStep::UseFirst,
            Some(true) => if facts.ran_again {
                RecoveryStep::UseSecond
            } else {
                RecoveryStep::RunAgain
            },
        }
    }
}

impl Recovery {
    /// Before anything ran.
    pub fn start() -> (res: Recovery)
        ensures
            res == (Recovery { ran: false, stale: false, updated: None, ran_again: false }),
    {
        Recovery { ran: false, stale: false, updated: None, ran_again: false }
    }

    /// The next step.
    pub fn step(&self) -> (res: RecoveryStep)
        ensures
            res == recovery_next(*self),
    {
        if !self.ran {
            return RecoveryStep::Run;
        }
        if !self.stale {
            return RecoveryStep::UseFirst;
        }
        match self.updated {
            None => RecoveryStep::UpdateStale,
            Some(false) => RecoveryStep::UseFirst,
            Some(true) => if self.ran_again {
                RecoveryStep::UseSecond
            } else {
                RecoveryStep::RunAgain
            },
        }
    }
}

/// What is known once a step was carried out: how the first run ended, or
/// whether the working copy could be made current.
pub open spec fn recovery_after(facts: Recovery, stale: bool, updated: bool) -> Recovery {
    match recovery_next(facts) {
        RecoveryStep::Run => Recovery { ran: true, stale, ..facts },
        RecoveryStep::UpdateStale => Recovery { updated: Some(updated), ..facts },
        RecoveryStep::RunAgain => Recovery { ran_again: true, ..facts },
        RecoveryStep::UseFirst | RecoveryStep::UseSecond => facts,
    }
}

/// Recovery is bounded and touches only a stale working copy: a request runs
/// once, and a second time only where the first run failed for staleness and
/// the working copy was made current since; then its answer is final.
pub proof fn law_recovery_is_tried_once(stale: bool, updated: bool)
    ensures
        ({
            let start = Recovery { ran: false, stale: false, updated: None, ran_again: false };
            let first = recovery_after(start, stale, updated);
            let second = recovery_after(first, stale, updated);
            let third = recovery_after(second, stale, updated);
            &&& recovery_next(start) == RecoveryStep::Run
            &&& recovery_next(first) == (if stale {
                RecoveryStep::UpdateStale
            } else {
                RecoveryStep::UseFirst
            })
            &&& stale ==> recovery_next(second) == (if updated {
                RecoveryStep::RunAgain
            } else {
                RecoveryStep::UseFirst
            })
            &&& stale && updated ==> recovery_next(third) == RecoveryStep::UseSecond
        }),
{
}

/// The error of a request that failed.
pub fn command_failed(request: &JjRequest, stderr: &str) -> (res: Error)
    ensures
        res@ == error::about2(
            ErrorKind::JjCommandFailed,
            JjRequest::command_text(request@),
            text::trim(stderr@),
        ),
{
    Error::JjCommandFailed { command: request.format_command(), stderr: trimmed(stderr) }
}

/// The error of a merge whose rebase failed.
pub fn rebase_error(error: Error) -> (res: Error)
    ensures
        error@.kind == ErrorKind::JjCommandFailed ==> res@ == error::about(
            ErrorKind::MergeRebaseFailed,
            error@.args[1],
        ),
        error@.kind != ErrorKind::JjCommandFailed ==> res@ == error@,
{
    match error {
        Error::JjCommandFailed { command: _, stderr } => Error::MergeRebaseFailed { stderr },
        other => other,
    }
}

/// The report without surrounding whitespace, or a replacement where nothing
/// is left of it.
pub open spec fn meaningful(stderr: Seq<char>, fallback: Seq<char>) -> Seq<char> {
    if text::trim(stderr).len() == 0 {
        fallback
    } else {
        text::trim(stderr)
    }
}

fn meaningful_stderr(stderr: &str, fallback: &str) -> (res: String)
    ensures
        res@ == meaningful(stderr@, fallback@),
{
    let inner = trimmed(stderr);
    if text::char_count(inner.as_str()) == 0 {
        copy(fallback)
    } else {
        inner
    }
}

/// How a request with a deadline ended.
#[derive(Debug, PartialEq, Eq)]
pub enum TimedCommandResult {
    /// It succeeded and printed this.
    Success(String),
    /// It failed and reported this.
    Failure(String),
    /// It was stopped at the deadline.
    TimedOut,
    /// It could not be run, or its output not be read.
    Io(String),
}

/// What to do with a request that has a deadline.
#[derive(Clone, Copy, Debug, PartialEq, Eq, Structural)]
pub enum WaitStep {
    /// It ended: collect its output.
    Collect,
    /// The deadline has passed: stop it.
    Stop,
    /// Look again later.
    Sleep,
}

/// What to do next with a request that was started. One that has ended is
/// collected even after the deadline.
pub fn wait_step(exited: bool, now_millis: u64, deadline_millis: u64) -> (res: WaitStep)
    ensures
        res == (if exited {
            WaitStep::Collect
        } else if now_millis >= deadline_millis {
            WaitStep::Stop
        } else {
            WaitStep::Sleep
        }),
{
    if exited {
        WaitStep::Collect
    } else if now_millis >= deadline_millis {
        WaitStep::Stop
    } else {
        WaitStep::Sleep
    }
}

/// How a request ended, given whether it succeeded and what could be read of
/// its two outputs. Only the output that matters has to be readable.
pub fn collected_result(
    success: bool,
    stdout: std::result::Result<String, String>,
    stderr: std::result::Result<String, String>,
) -> (res: TimedCommandResult)
    ensures
        match res {
            TimedCommandResult::Success(out) => success && (stdout matches Ok(s) && s@ == out@),
            TimedCommandResult::Failure(report) => !success && (stderr matches Ok(s) && report@
                == text::trim(s@)),
            TimedCommandResult::TimedOut => false,
            TimedCommandResult::Io(message) => if success {
                stdout matches Err(e) && e@ == message@
            } else {
                (stderr matches Err(e) && match stdout {
                    Err(first) => message@ == first@,
                    Ok(_) => message@ == e@,
                })
            },
        },
{
    if success {
        match stdout {
            Ok(out) => TimedCommandResult::Success(out),
            Err(e) => TimedCommandResult::Io(e),
        }
    } else {
        match stderr {
            Ok(report) => TimedCommandResult::Failure(trimmed(report.as_str())),
            Err(e) => match stdout {
                Err(first) => TimedCommandResult::Io(first),
                Ok(_) => TimedCommandResult::Io(e),
            },
        }
    }
}

/// Whether a bounded snapshot is to be tried again after making the working
/// copy current.
pub fn timed_out_of_date(result: &TimedCommandResult) -> (res: bool)
    ensures
        res == (match result {
            TimedCommandResult::Failure(stderr) => names_staleness(lowercase_text(stderr@)),
            _ => false,
        }),
{
    match result {
        TimedCommandResult::Failure(stderr) => stderr_reports_stale(stderr.as_str()),
        _ => false,
    }
}

/// What a bounded snapshot says of a workspace.
pub fn freshness_of(result: &TimedCommandResult) -> (res: WorkspaceFreshnessSnapshot)
    ensures
        match result {
            TimedCommandResult::Success(_) => res.is(WorkspaceFreshnessStatus::Current, None),
            TimedCommandResult::Failure(stderr) => res.is(
                WorkspaceFreshnessStatus::Failed,
                Some(meaningful(stderr@, "jj could not make the workspace current"@)),
            ),
            TimedCommandResult::TimedOut => res.is(
                WorkspaceFreshnessStatus::TimedOut,
                Some("workspace could not be made current before the deadline"@),
            ),
            TimedCommandResult::Io(error) => res.is(
                WorkspaceFreshnessStatus::Failed,
                Some("failed to run jj while making the workspace current: "@ + error@),
            ),
        },
{
    match result {
        TimedCommandResult::Success(_) => WorkspaceFreshnessSnapshot::current(),
        TimedCommandResult::Failure(stderr) => WorkspaceFreshnessSnapshot::failed(
            meaningful_stderr(stderr.as_str(), "jj could not make the workspace current"),
        ),
        TimedCommandResult::TimedOut => WorkspaceFreshnessSnapshot::timed_out(),
        TimedCommandResult::Io(error) => WorkspaceFreshnessSnapshot::failed(
            cat2("failed to run jj while making the workspace current: ", error.as_str()),
        ),
    }
}

/// What a bounded diff-stat request says of a workspace: nothing, unless it
/// succeeded.
pub fn diff_of(result: &TimedCommandResult) -> (res: WorkspaceDiffSnapshot)
    ensures
        res == (match result {
            TimedCommandResult::Success(stdout) => diff_stat_of(stdout@),
            _ => WorkspaceDiffSnapshot::nothing_known(),
        }),
{
    match result {
        TimedCommandResult::Success(stdout) => parse_diff_stat(stdout.as_str()),
        _ => WorkspaceDiffSnapshot::unknown(),
    }
}

/// A time limit in milliseconds, as a setting gives it or by default.
pub open spec fn timeout_of(setting: Option<Seq<char>>, default_millis: u64) -> u64 {
    match setting {
        Some(value) => match text::parsed_number(text::trim(value), (u64::MAX + 1) as nat) {
            Some(n) => n as u64,
            None => default_millis,
        },
        None => default_millis,
    }
}

/// Read a time limit; a setting that is no number does not count.
pub fn timeout_millis(setting: &Option<String>, default_millis: u64) -> (res: u64)
    ensures
        res == timeout_of(text::opt_view(*setting), default_millis),
{
    match setting {
        Some(value) => {
            let inner = trimmed(value.as_str());
            proof {
                lemma_number_bound(inner@, (u64::MAX + 1) as nat);
            }
            match parse_number(inner.as_str(), u64::MAX) {
                Some(n) => n,
                None => default_millis,
            }
        },
        None => default_millis,
    }
}

// ---------------------------------------------------------------------------
// Laws

proof fn lemma_cut(before: Seq<char>, after: Seq<char>)
    requires
        !before.contains('\0'),
    ensures
        text::split_once(before + "\0"@ + after, "\0"@) == Some((before, after)),
{
    reveal_strlit("\0");
    lemma_cut_char(before, '\0', after, "\0"@);
}

/// A line that was written with the fields of a revision reads back as that
/// revision; the message may hold anything.
pub proof fn law_revision_line_reads_back(rev: RevView)
    requires
        !rev.commit_id.contains('\0'),
        !rev.change_id.contains('\0'),
    ensures
        revision_of(rev.commit_id + "\0"@ + (rev.change_id + "\0"@ + rev.message)) == Ok::<
            RevView,
            error::ErrorView,
        >(rev),
{
    lemma_cut(rev.commit_id, rev.change_id + "\0"@ + rev.message);
    lemma_cut(rev.change_id, rev.message);
}

/// A line that was written with the fields of a workspace reads back as that
/// workspace, its name quoted, and `1` for being the current one.
pub proof fn law_workspace_line_reads_back(workspace: WorkspaceView, written: Seq<char>)
    requires
        types::valid_name(workspace.name),
        revset::unquoted(written) == workspace.name,
        !written.contains('\0'),
        !workspace.rev.commit_id.contains('\0'),
        !workspace.rev.change_id.contains('\0'),
    ensures
        workspace_of(
            written + "\0"@ + ((if workspace.is_current {
                "1"@
            } else {
                "0"@
            }) + "\0"@ + (workspace.rev.commit_id + "\0"@ + (workspace.rev.change_id + "\0"@
                + workspace.rev.message))),
        ) == Ok::<WorkspaceView, error::ErrorView>(workspace),
{
    let rev = workspace.rev;
    let flag = if workspace.is_current {
        "1"@
    } else {
        "0"@
    };
    let tail = rev.commit_id + "\0"@ + (rev.change_id + "\0"@ + rev.message);
    reveal_strlit("0");
    reveal_strlit("1");
    assert("0"@[0] == '0' && "1"@[0] == '1');
    assert(flag.len() == 1 && flag[0] != '\0');
    lemma_cut(written, flag + "\0"@ + tail);
    lemma_cut(flag, tail);
    law_revision_line_reads_back(rev);
}

/// A list of lines is read line by line, each by itself and in their order; it
/// is refused for the first line that cannot be read.
pub proof fn law_revisions_are_read_line_by_line(lines: Seq<Seq<char>>)
    ensures
        match revisions_of(lines) {
            Ok(revs) => revs.len() == lines.len() && forall|i: int|
                0 <= i < lines.len() ==> revision_of(#[trigger] lines[i]) == Ok::<
                    RevView,
                    error::ErrorView,
                >(revs[i]),
            Err(e) => exists|i: int|
                0 <= i < lines.len() && revision_of(#[trigger] lines[i]) == Err::<
                    RevView,
                    error::ErrorView,
                >(e) && forall|j: int| 0 <= j < i ==> revision_of(#[trigger] lines[j]) is Ok,
        },
    decreases lines.len(),
{
    if lines.len() > 0 {
        let front = lines.drop_last();
        let last = lines.len() - 1;
        law_revisions_are_read_line_by_line(front);
        assert(forall|i: int| 0 <= i < last ==> front[i] == #[trigger] lines[i]);
        match revisions_of(front) {
            Ok(revs) => {
                if let Err(e) = revision_of(lines.last()) {
                    assert(revision_of(lines[last]) == Err::<RevView, error::ErrorView>(e));
                }
            },
            Err(e) => {
                let i = choose|i: int|
                    0 <= i < front.len() && revision_of(#[trigger] front[i]) == Err::<
                        RevView,
                        error::ErrorView,
                    >(e) && forall|j: int| 0 <= j < i ==> revision_of(#[trigger] front[j]) is Ok;
                assert(revision_of(lines[i]) == Err::<RevView, error::ErrorView>(e));
            },
        }
    }
}

/// A list of workspaces is read line by line, each by itself and in their order;
/// it is refused for the first line that cannot be read.
pub proof fn law_workspaces_are_read_line_by_line(lines: Seq<Seq<char>>)
    ensures
        match workspaces_of(lines) {
            Ok(found) => found.len() == lines.len() && forall|i: int|
                0 <= i < lines.len() ==> workspace_of(#[trigger] lines[i]) == Ok::<
                    WorkspaceView,
                    error::ErrorView,
                >(found[i]),
            Err(e) => exists|i: int|
                0 <= i < lines.len() && workspace_of(#[trigger] lines[i]) == Err::<
                    WorkspaceView,
                    error::ErrorView,
                >(e) && forall|j: int| 0 <= j < i ==> workspace_of(#[trigger] lines[j]) is Ok,
        },
    decreases lines.len(),
{
    if lines.len() > 0 {
        let front = lines.drop_last();
        let last = lines.len() - 1;
        law_workspaces_are_read_line_by_line(front);
        assert(forall|i: int| 0 <= i < last ==> front[i] == #[trigger] lines[i]);
        match workspaces_of(front) {
            Ok(found) => {
                if let Err(e) = workspace_of(lines.last()) {
                    assert(workspace_of(lines[last]) == Err::<WorkspaceView, error::ErrorView>(e));
                }
            },
            Err(e) => {
                let i = choose|i: int|
                    0 <= i < front.len() && workspace_of(#[trigger] front[i]) == Err::<
                        WorkspaceView,
                        error::ErrorView,
                    >(e) && forall|j: int| 0 <= j < i ==> workspace_of(#[trigger] front[j]) is Ok;
                assert(workspace_of(lines[i]) == Err::<WorkspaceView, error::ErrorView>(e));
            },
        }
    }
}

/// A diff summary is read line by line, and no line's paths are lost.
pub proof fn law_summary_is_read_line_by_line(some: Seq<Seq<char>>, more: Seq<Seq<char>>)
    ensures
        all_summary_paths(some + more) == all_summary_paths(some) + all_summary_paths(more),
        forall|line: Seq<char>| #[trigger] all_summary_paths(seq![line]) == summary_paths(line),
    decreases more.len(),
{
    reveal_with_fuel(all_summary_paths, 2);
    if more.len() == 0 {
        assert(some + more =~= some);
    } else {
        law_summary_is_read_line_by_line(some, more.drop_last());
        assert((some + more).drop_last() =~= some + more.drop_last());
    }
    assert(all_summary_paths(some + more) =~= all_summary_paths(some) + all_summary_paths(more));
    assert forall|line: Seq<char>| #[trigger]
        all_summary_paths(seq![line]) == summary_paths(line) by {
        assert(seq![line].drop_last() =~= Seq::<Seq<char>>::empty());
        assert(all_summary_paths(seq![line]) =~= summary_paths(line));
    }
}

proof fn lemma_cut_char(before: Seq<char>, c: char, after: Seq<char>, sep: Seq<char>)
    requires
        !before.contains(c),
        sep.len() > 0,
        sep[0] == c,
    ensures
        text::split_once(before + sep + after, sep) == Some((before, after)),
{
    let s = before + sep + after;
    let n = before.len() as int;
    assert(s.subrange(n, n + sep.len()) =~= sep);
    assert(text::occurs_at(s, sep, n));
    let found = text::find_from(s, sep, 0);
    assert(found is Some) by {
        if found is None {
            text::lemma_find_none(s, sep, 0);
        }
    }
    assert(found->0 == n) by {
        text::lemma_find_some(s, sep, 0);
        let i = found->0;
        assert(text::occurs_at(s, sep, i));
        if i < n {
            assert(s.subrange(i, i + sep.len())[0] == s[i]);
            assert(before[i] == c);
        }
    }
    assert(s.take(n) =~= before);
    assert(s.skip(n + sep.len()) =~= after);
}

/// A summary line names what stands behind its mark; a rename names both the old
/// and the new path, with what they have in common around them.
pub proof fn law_summary_line_names_its_paths(
    mark: Seq<char>,
    path: Seq<char>,
    prefix: Seq<char>,
    from: Seq<char>,
    to: Seq<char>,
    suffix: Seq<char>,
)
    requires
        !mark.contains(' '),
    ensures
        !path.contains('{') ==> summary_paths(mark + " "@ + path) == seq![path],
        !prefix.contains('{') && !from.contains(' ') && !from.contains('}') && !to.contains('}')
            ==> summary_paths(
            mark + " "@ + (prefix + "{"@ + (from + " => "@ + to + "}"@ + suffix)),
        ) == seq![prefix + from + suffix, prefix + to + suffix],
{
    reveal_strlit(" ");
    reveal_strlit("{");
    reveal_strlit("}");
    reveal_strlit(" => ");
    lemma_cut_char(mark, ' ', path, " "@);
    if !path.contains('{') {
        text::lemma_find_some(path, "{"@, 0);
        if let Some(i) = text::find_from(path, "{"@, 0) {
            assert(path.subrange(i, i + 1)[0] == '{');
            assert(path[i] == '{');
        }
    }
    if !prefix.contains('{') && !from.contains(' ') && !from.contains('}') && !to.contains('}') {
        let group = from + " => "@ + to;
        let rest = group + "}"@ + suffix;
        let renamed = prefix + "{"@ + rest;
        lemma_cut_char(mark, ' ', renamed, " "@);
        lemma_cut_char(prefix, '{', rest, "{"@);
        if group.contains('}') {
            let i = choose|i: int| 0 <= i < group.len() && group[i] == '}';
            if i < from.len() {
                assert(from[i] == '}');
            } else if i < from.len() + 4 {
                assert(" => "@[i - from.len()] == '}');
            } else {
                assert(to[i - from.len() - 4] == '}');
            }
        }
        lemma_cut_char(group, '}', suffix, "}"@);
        lemma_cut_char(from, ' ', to, " => "@);
    }
}

/// The line that is read is the last of those that hold the text.
pub proof fn law_last_line_is_found(lines: Seq<Seq<char>>, sub: Seq<char>)
    ensures
        match last_line_with(lines, sub) {
            Some(line) => exists|i: int|
                0 <= i < lines.len() && #[trigger] lines[i] == line && text::contains(line, sub)
                    && forall|j: int|
                    i < j < lines.len() ==> !text::contains(#[trigger] lines[j], sub),
            None => forall|j: int|
                0 <= j < lines.len() ==> !text::contains(#[trigger] lines[j], sub),
        },
    decreases lines.len(),
{
    if lines.len() > 0 {
        let front = lines.drop_last();
        let last = lines.len() - 1;
        if text::contains(lines.last(), sub) {
            assert(lines[last] == lines.last());
        } else {
            law_last_line_is_found(front, sub);
            assert(forall|i: int| 0 <= i < last ==> front[i] == #[trigger] lines[i]);
            if let Some(line) = last_line_with(front, sub) {
                let i = choose|i: int|
                    0 <= i < front.len() && #[trigger] front[i] == line && text::contains(line, sub)
                        && forall|j: int|
                        i < j < front.len() ==> !text::contains(#[trigger] front[j], sub);
                assert(lines[i] == line);
            }
        }
    }
}

/// The number before a word is read as it was written.
pub proof fn law_number_before_reads_back(front: Seq<char>, n: u32, marker: Seq<char>, back: Seq<char>)
    requires
        front.len() == 0 || !text::is_digit(front.last()),
        text::split_once(front + text::decimal(n as nat) + marker + back, marker) == Some(
            (front + text::decimal(n as nat), back),
        ),
    ensures
        number_before_in(front + text::decimal(n as nat) + marker + back, marker) == Some(n),
{
    text::law_decimal_reads_back(n as nat);
    text::law_digit_runs(text::decimal(n as nat), front);
    assert(text::parsed_number(text::decimal(n as nat), (u32::MAX + 1) as nat) == Some(n as nat));
}

/// A version reads back from its three numbers, whatever stands behind the last.
pub proof fn law_version_reads_back(major: u64, minor: u64, patch: u64, rest: Seq<char>)
    requires
        rest.len() == 0 || (!text::is_digit(rest[0]) && !rest.contains('.')),
    ensures
        token_version(
            text::decimal(major as nat) + seq!['.'] + (text::decimal(minor as nat) + seq!['.'] + (
            text::decimal(patch as nat) + rest)),
        ) == Some(JjVersion { major, minor, patch }),
{
    let a = text::decimal(major as nat);
    let b = text::decimal(minor as nat);
    let c = text::decimal(patch as nat);
    let last = c + rest;
    text::law_decimal_reads_back(major as nat);
    text::law_decimal_reads_back(minor as nat);
    text::law_decimal_reads_back(patch as nat);
    lemma_no_dot(a);
    lemma_no_dot(b);
    lemma_no_dot(c);
    if last.contains('.') {
        let i = choose|i: int| 0 <= i < last.len() && last[i] == '.';
        if i < c.len() {
            assert(c[i] == '.');
        } else {
            assert(rest[i - c.len()] == '.');
        }
    }
    text::law_split_goes_piece_by_piece(a, b + seq!['.'] + last, '.');
    text::law_split_goes_piece_by_piece(b, last, '.');
    text::law_split_goes_piece_by_piece(last, Seq::empty(), '.');
    let parts = text::split(a + seq!['.'] + (b + seq!['.'] + last), '.');
    assert(parts =~= seq![a, b, last]);
    text::law_digit_runs(a, Seq::empty());
    text::law_digit_runs(b, Seq::empty());
    text::law_digit_runs(c, rest);
    assert(a + Seq::<char>::empty() =~= a);
    assert(b + Seq::<char>::empty() =~= b);
    let bound = (u64::MAX + 1) as nat;
    assert(text::parsed_number(a, bound) == Some(major as nat));
    assert(text::parsed_number(b, bound) == Some(minor as nat));
    assert(text::parsed_number(c, bound) == Some(patch as nat));
}

proof fn lemma_no_dot(digits: Seq<char>)
    requires
        text::all_digits(digits),
    ensures
        !digits.contains('.'),
{
    if digits.contains('.') {
        let i = choose|i: int| 0 <= i < digits.len() && digits[i] == '.';
        assert(text::is_digit(digits[i]));
    }
}

/// The version is the first word that begins with a digit.
pub proof fn law_version_is_the_first_number(words: Seq<Seq<char>>, from: int)
    requires
        0 <= from,
    ensures
        match numeric_word_from(words, from) {
            Some(word) => word.len() > 0 && text::is_digit(word[0]) && exists|k: int|
                from <= k < words.len() && #[trigger] words[k] == word && forall|j: int|
                    from <= j < k ==> (#[trigger] words[j]).len() == 0 || !text::is_digit(
                        words[j][0],
                    ),
            None => forall|j: int|
                from <= j < words.len() ==> (#[trigger] words[j]).len() == 0 || !text::is_digit(
                    words[j][0],
                ),
        },
    decreases words.len() - from,
{
    if from < words.len() {
        law_version_is_the_first_number(words, from + 1);
        if let Some(word) = numeric_word_from(words, from) {
            if words[from].len() > 0 && text::is_digit(words[from][0]) {
                assert(words[from] == word);
            } else {
                let k = choose|k: int|
                    from + 1 <= k < words.len() && #[trigger] words[k] == word && forall|j: int|
                        from + 1 <= j < k ==> (#[trigger] words[j]).len() == 0 || !text::is_digit(
                            words[j][0],
                        );
                assert(words[k] == word);
            }
        }
    }
}

/// Support begins with version 0.39.0: no version from there on is too old, and
/// every one before is.
pub proof fn law_support_begins_with(version: JjVersion)
    ensures
        too_old(version) <==> version.major < 1 && version.minor < 39,
        version.major >= 1 ==> !too_old(version),
        version.minor >= 39 ==> !too_old(version),
{
}

/// A time limit is the number that was set, whatever space stands around it;
/// without one, or with anything else, it is the default.
pub proof fn law_time_limit_reads_back(limit: u64, default_millis: u64, value: Seq<char>)
    ensures
        timeout_of(None, default_millis) == default_millis,
        text::trim(value) == text::decimal(limit as nat) ==> timeout_of(
            Some(value),
            default_millis,
        ) == limit,
        text::parsed_number(text::trim(value), 0x1_0000_0000_0000_0000) is None ==> timeout_of(
            Some(value),
            default_millis,
        ) == default_millis,
{
    text::law_decimal_reads_back(limit as nat);
    assert(text::parsed_number(text::decimal(limit as nat), (u64::MAX + 1) as nat) == Some(
        limit as nat,
    ));
}

} // verus!
