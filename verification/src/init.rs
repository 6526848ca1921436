//! One idempotent setup verb for a repo.
//!
//! Writes the self-documenting config scaffold, keeps `.jj/` out of git in
//! colocated repos, and on request switches the repo to bookmark landings from
//! day one, creating the bookmark where it is missing.

use vstd::prelude::*;

use crate::config::{self, debug_string, render_config_scaffold};
use crate::error::{self, Error, ErrorKind, Result};
use crate::jj::{self, JjRequest};
use crate::revset::{self, quote_revset_string};
use crate::text::{self, cat2, cat3, cat4, cat5, copy, has_suffix, lines_of, same, trimmed};
use crate::types::{LaneRev, RepoConfig};

verus! {

// ---------------------------------------------------------------------------
// The config file

/// The landing target of a config is this bookmark, where one is asked for.
pub open spec fn target_agrees(config: RepoConfig, target: Option<Seq<char>>) -> bool {
    match target {
        Some(bookmark) => text::opt_view(config.lane.target) == Some(bookmark),
        None => true,
    }
}

/// Why an existing config is left alone.
pub open spec fn config_exists(path: Seq<char>, quoted_bookmark: Seq<char>) -> error::ErrorView {
    error::about(
        ErrorKind::Engine,
        "config already exists at "@ + path + "\nhint: set [lane] target = "@ + quoted_bookmark
            + " there yourself; init never rewrites an existing config"@,
    )
}

/// Whether to write the scaffold. An existing config is never rewritten, and
/// is an error where it has another landing target than the one asked for.
pub fn should_write_config(
    present: bool,
    config_path: &str,
    config: &RepoConfig,
    target: &Option<String>,
) -> (res: Result<bool>)
    ensures
        if !present {
            res == Ok::<bool, Error>(true)
        } else if target_agrees(*config, text::opt_view(*target)) {
            res == Ok::<bool, Error>(false)
        } else {
            res matches Err(e) && e@ == config_exists(
                config_path@,
                config::debug_text(text::opt_view(*target)->0),
            )
        },
{
    if !present {
        return Ok(true);
    }
    if let Some(bookmark) = target {
        let agrees = match &config.lane.target {
            Some(current) => same(current.as_str(), bookmark.as_str()),
            None => false,
        };
        if !agrees {
            return Err(
                Error::Engine {
                    message: cat5(
                        "config already exists at ",
                        config_path,
                        "\nhint: set [lane] target = ",
                        debug_string(bookmark.as_str()).as_str(),
                        " there yourself; init never rewrites an existing config",
                    ),
                },
            );
        }
    }
    Ok(false)
}

/// The text of a new config file: the scaffold, and the landing target where
/// one is asked for.
pub open spec fn new_config(config: RepoConfig, target: Option<Seq<char>>) -> Seq<char> {
    let scaffold = config::SCAFFOLD_HEAD@ + config::debug_text(config.workspace_template@)
        + config::SCAFFOLD_TAIL@;
    match target {
        Some(bookmark) => scaffold + "\n[lane]\ntarget = "@ + config::debug_text(bookmark)
            + "\n"@,
        None => scaffold,
    }
}

/// What a new config file holds.
pub fn init_config(config: &RepoConfig, target: &Option<String>) -> (res: String)
    ensures
        res@ == new_config(*config, text::opt_view(*target)),
{
    let scaffold = render_config_scaffold(config);
    match target {
        Some(bookmark) => cat4(
            scaffold.as_str(),
            "\n[lane]\ntarget = ",
            debug_string(bookmark.as_str()).as_str(),
            "\n",
        ),
        None => scaffold,
    }
}

/// The line on the config file.
pub fn config_line(written: bool, path: &str) -> (res: String)
    ensures
        res@ == (if written {
            "config: wrote scaffold at "@
        } else {
            "config: already exists at "@
        }) + path@,
{
    if written {
        cat2("config: wrote scaffold at ", path)
    } else {
        cat2("config: already exists at ", path)
    }
}

// ---------------------------------------------------------------------------
// The target bookmark

/// The bookmark, where it exists.
pub open spec fn present_revset(bookmark: Seq<char>) -> Seq<char> {
    "present("@ + revset::quoted(bookmark) + ")"@
}

/// The request that selects the bookmark, where it exists.
pub fn bookmark_request(bookmark: &str) -> (res: JjRequest)
    ensures
        res@ == jj::revisions_args(present_revset(bookmark@)),
{
    JjRequest::revisions(cat3("present(", quote_revset_string(bookmark).as_str(), ")").as_str())
}

/// The request that creates a missing bookmark at the parent of the working
/// copy; none where it exists.
pub fn create_bookmark(bookmark: &str, existing: &Vec<LaneRev>) -> (res: Option<JjRequest>)
    ensures
        match res {
            Some(request) => existing@.len() == 0 && request@ == jj::bookmark_create_args(
                bookmark@,
                "@-"@,
            ),
            None => existing@.len() > 0,
        },
{
    if existing.len() == 0 {
        Some(JjRequest::bookmark_create(bookmark, "@-"))
    } else {
        None
    }
}

/// The line on the bookmark.
pub fn bookmark_line(created: bool, bookmark: &str) -> (res: String)
    ensures
        res@ == if created {
            "bookmark: created '"@ + bookmark@ + "' at @-"@
        } else {
            "bookmark: '"@ + bookmark@ + "' already exists"@
        },
{
    if created {
        cat3("bookmark: created '", bookmark, "' at @-")
    } else {
        cat3("bookmark: '", bookmark, "' already exists")
    }
}

// ---------------------------------------------------------------------------
// The ignore file

/// A line that keeps jj's state out of git.
pub open spec fn ignores_jj_line(line: Seq<char>) -> bool {
    let entry = text::trim(line);
    entry == ".jj"@ || entry == ".jj/"@ || entry == "/.jj"@ || entry == "/.jj/"@
}

/// Some line of the file keeps jj's state out of git.
pub open spec fn ignores_jj(contents: Seq<char>) -> bool {
    exists|i: int|
        0 <= i < text::lines(contents).len() && ignores_jj_line(#[trigger] text::lines(contents)[i])
}

/// The file with one more line that does.
pub open spec fn with_jj_ignored(contents: Seq<char>) -> Seq<char> {
    (if contents.len() > 0 && contents.last() != '\n' {
        contents + "\n"@
    } else {
        contents
    }) + ".jj/\n"@
}

/// What to do about the ignore file.
#[derive(Debug, PartialEq, Eq)]
pub enum IgnoreStep {
    /// The repo is not colocated with git.
    NotColocated,
    /// `.jj/` is ignored already.
    AlreadyIgnored,
    /// The file is to hold this.
    Write(String),
}

fn has_jj_ignored(contents: &str) -> (res: bool)
    ensures
        res == ignores_jj(contents@),
{
    let lines = lines_of(contents);
    let ghost all = text::lines(contents@);
    assert(text::views(lines@).len() == lines@.len());
    let mut i: usize = 0;
    while i < lines.len()
        invariant
            i <= lines@.len(),
            all == text::lines(contents@),
            all == text::views(lines@),
            all.len() == lines@.len(),
            forall|k: int| 0 <= k < i ==> !ignores_jj_line(#[trigger] all[k]),
        decreases lines@.len() - i,
    {
        let entry = trimmed(lines[i].as_str());
        assert(all[i as int] == lines@[i as int]@);
        if same(entry.as_str(), ".jj") || same(entry.as_str(), ".jj/") || same(
            entry.as_str(),
            "/.jj",
        ) || same(entry.as_str(), "/.jj/") {
            assert(ignores_jj_line(all[i as int]));
            return true;
        }
        i = i + 1;
    }
    false
}

/// In a colocated repo, make sure that `.jj/` is ignored. `contents` is what
/// the ignore file holds, empty where there is none.
pub fn ensure_jj_gitignored(colocated: bool, contents: &str) -> (res: IgnoreStep)
    ensures
        if !colocated {
            res == IgnoreStep::NotColocated
        } else if ignores_jj(contents@) {
            res == IgnoreStep::AlreadyIgnored
        } else {
            res matches IgnoreStep::Write(updated) && updated@ == with_jj_ignored(contents@)
        },
{
    if !colocated {
        return IgnoreStep::NotColocated;
    }
    if has_jj_ignored(contents) {
        return IgnoreStep::AlreadyIgnored;
    }
    let length: usize = text::char_count(contents);
    let mut updated = copy(contents);
    proof {
        reveal_strlit("\n");
        if contents@.len() > 0 {
            assert(contents@.skip(contents@.len() - 1) =~= seq![contents@.last()]);
            assert("\n"@ =~= seq!['\n']);
            assert(seq![contents@.last()][0] == contents@.last());
            assert("\n"@[0] == '\n');
        }
    }
    if length > 0 && !has_suffix(contents, "\n") {
        updated.append("\n");
    }
    updated.append(".jj/\n");
    IgnoreStep::Write(updated)
}

/// The line on the ignore file, if there is one.
pub fn ignore_line(step: &IgnoreStep) -> (res: Option<String>)
    ensures
        text::opt_view(res) == match *step {
            IgnoreStep::NotColocated => None::<Seq<char>>,
            IgnoreStep::AlreadyIgnored => Some("gitignore: .jj/ already ignored"@),
            IgnoreStep::Write(_) => Some("gitignore: added .jj/"@),
        },
{
    match step {
        IgnoreStep::NotColocated => None,
        IgnoreStep::AlreadyIgnored => Some(copy("gitignore: .jj/ already ignored")),
        IgnoreStep::Write(_) => Some(copy("gitignore: added .jj/")),
    }
}

// ---------------------------------------------------------------------------
// The steps

/// What the ignore file looks like.
pub struct IgnoreAnswer {
    /// The repo is colocated with git.
    pub colocated: bool,
    /// What the file holds, empty where there is none.
    pub contents: String,
}

/// What is known while a repo is set up.
pub struct InitFacts {
    /// There was a config file to begin with.
    pub config_present: bool,
    /// The config file was written.
    pub config_written: bool,
    /// What the bookmark selects.
    pub bookmarks: Option<Vec<LaneRev>>,
    /// The bookmark was created.
    pub bookmark_created: bool,
    /// The ignore file.
    pub ignore: Option<IgnoreAnswer>,
    /// The ignore file was written.
    pub ignore_written: bool,
}

/// What to do next.
pub enum InitStep {
    /// The repo is not set up.
    Refuse(Error),
    /// Write the config file.
    WriteConfig(String),
    /// Look for the bookmark.
    AskBookmark(JjRequest),
    /// Create the bookmark.
    CreateBookmark(JjRequest),
    /// Look at the ignore file.
    CheckIgnore,
    /// Write the ignore file.
    WriteIgnore(String),
    /// The repo is set up.
    Done,
}

/// A step as mathematical values.
pub enum InitStepView {
    Refuse(error::ErrorView),
    WriteConfig(Seq<char>),
    AskBookmark(Seq<Seq<char>>),
    CreateBookmark(Seq<Seq<char>>),
    CheckIgnore,
    WriteIgnore(Seq<char>),
    Done,
}

impl View for InitStep {
    type V = InitStepView;

    open spec fn view(&self) -> InitStepView {
        match self {
            InitStep::Refuse(e) => InitStepView::Refuse(e@),
            InitStep::WriteConfig(contents) => InitStepView::WriteConfig(contents@),
            InitStep::AskBookmark(r) => InitStepView::AskBookmark(r@),
            InitStep::CreateBookmark(r) => InitStepView::CreateBookmark(r@),
            InitStep::CheckIgnore => InitStepView::CheckIgnore,
            InitStep::WriteIgnore(contents) => InitStepView::WriteIgnore(contents@),
            InitStep::Done => InitStepView::Done,
        }
    }
}

/// The ignore file comes last.
pub open spec fn init_ignore(facts: InitFacts) -> InitStepView {
    match facts.ignore {
        None => InitStepView::CheckIgnore,
        Some(answer) => if answer.colocated && !ignores_jj(answer.contents@)
            && !facts.ignore_written {
            InitStepView::WriteIgnore(with_jj_ignored(answer.contents@))
        } else {
            InitStepView::Done
        },
    }
}

/// The next step of a setup: the config file, the bookmark, the ignore file.
pub open spec fn init_next(
    path: Seq<char>,
    config: RepoConfig,
    target: Option<Seq<char>>,
    facts: InitFacts,
) -> InitStepView {
    if facts.config_present && !target_agrees(config, target) {
        InitStepView::Refuse(config_exists(path, config::debug_text(target->0)))
    } else if !facts.config_present && !facts.config_written {
        InitStepView::WriteConfig(new_config(config, target))
    } else {
        match target {
            None => init_ignore(facts),
            Some(bookmark) => match facts.bookmarks {
                None => InitStepView::AskBookmark(jj::revisions_args(present_revset(bookmark))),
                Some(existing) => if existing@.len() == 0 && !facts.bookmark_created {
                    InitStepView::CreateBookmark(jj::bookmark_create_args(bookmark, "@-"@))
                } else {
                    init_ignore(facts)
                },
            },
        }
    }
}

fn ignore_step(facts: &InitFacts) -> (res: InitStep)
    ensures
        res@ == init_ignore(*facts),
{
    match &facts.ignore {
        None => InitStep::CheckIgnore,
        Some(answer) => {
            match ensure_jj_gitignored(answer.colocated, answer.contents.as_str()) {
                IgnoreStep::Write(updated) => if facts.ignore_written {
                    InitStep::Done
                } else {
                    InitStep::WriteIgnore(updated)
                },
                IgnoreStep::NotColocated | IgnoreStep::AlreadyIgnored => InitStep::Done,
            }
        },
    }
}

/// Decide the next step of a setup. `config` is the configuration in effect
/// before it.
pub fn init_step(
    config_path: &str,
    config: &RepoConfig,
    target: &Option<String>,
    facts: &InitFacts,
) -> (res: InitStep)
    ensures
        res@ == init_next(config_path@, *config, text::opt_view(*target), *facts),
{
    match should_write_config(facts.config_present, config_path, config, target) {
        Err(e) => {
            return InitStep::Refuse(e);
        },
        Ok(true) => {
            if !facts.config_written {
                return InitStep::WriteConfig(init_config(config, target));
            }
        },
        Ok(false) => {},
    }
    match target {
        None => ignore_step(facts),
        Some(bookmark) => match &facts.bookmarks {
            None => InitStep::AskBookmark(bookmark_request(bookmark.as_str())),
            Some(existing) => {
                match create_bookmark(bookmark.as_str(), existing) {
                    Some(request) => if facts.bookmark_created {
                        ignore_step(facts)
                    } else {
                        InitStep::CreateBookmark(request)
                    },
                    None => ignore_step(facts),
                }
            },
        },
    }
}

/// A setup that is refused touches nothing: whatever else is known, the only
/// step is the refusal. An existing config file is never written, and neither
/// the bookmark nor the ignore file is touched before the config file is
/// settled.
pub proof fn law_refused_init_touches_nothing(
    path: Seq<char>,
    config: RepoConfig,
    target: Option<Seq<char>>,
    facts: InitFacts,
)
    ensures
        ({
            let step = init_next(path, config, target, facts);
            &&& facts.config_present && !target_agrees(config, target) <==> step is Refuse
            &&& step is WriteConfig ==> !facts.config_present
            &&& step is AskBookmark || step is CreateBookmark || step is CheckIgnore
                || step is WriteIgnore || step is Done ==> facts.config_written || (
            facts.config_present && target_agrees(config, target))
            &&& step is CreateBookmark ==> target is Some && (facts.bookmarks matches Some(existing)
                && existing@.len() == 0)
        }),
{
}

/// Setting up a repo that is set up does nothing: with a config file that has
/// the target, the bookmark there and `.jj/` ignored, no step writes anything.
pub proof fn law_init_is_idempotent(
    path: Seq<char>,
    config: RepoConfig,
    target: Option<Seq<char>>,
    facts: InitFacts,
)
    requires
        facts.config_present,
        target_agrees(config, target),
        facts.bookmarks matches Some(existing) ==> existing@.len() > 0,
        facts.ignore matches Some(answer) ==> !answer.colocated || ignores_jj(answer.contents@),
    ensures
        ({
            let step = init_next(path, config, target, facts);
            step is AskBookmark || step is CheckIgnore || step is Done
        }),
{
}

/// The line that closes a setup.
pub const INITIALIZED: &'static str = "initialized; next: navi skill, then navi lane open <name> -p <path>";

/// Setting up twice changes nothing the second time: an ignore file that was
/// written ignores `.jj/`, and keeps all that it held before.
pub proof fn law_ignoring_is_idempotent(contents: Seq<char>)
    ensures
        ignores_jj(with_jj_ignored(contents)),
        text::starts_with(with_jj_ignored(contents), contents),
{
    reveal_strlit("\n");
    reveal_strlit(".jj/\n");
    reveal_strlit(".jj/");
    let front = if contents.len() > 0 && contents.last() != '\n' {
        contents + "\n"@
    } else {
        contents
    };
    let entry = ".jj/\n"@;
    let line = ".jj/"@;
    assert(front.len() == 0 || front.last() == '\n');
    assert(with_jj_ignored(contents) == front + entry);
    lemma_lines_of_last(front, entry);
    assert(line.len() == 4 && entry.len() == 5);
    assert(entry.take(4) =~= line);
    assert(entry.skip(5) =~= Seq::<char>::empty());
    let lf = seq!['\n'];
    assert(entry.subrange(4, 5) =~= lf);
    assert(text::occurs_at(entry, lf, 4));
    text::lemma_find_some(entry, lf, 0);
    if text::find_from(entry, lf, 0) is None {
        if text::find_from(entry, lf, 0) is None {
            text::lemma_find_none(entry, lf, 0);
        }
    }
    assert forall|j: int| 0 <= j < 4 implies !text::occurs_at(entry, lf, j) by {
        if text::occurs_at(entry, lf, j) {
            assert(entry.subrange(j, j + 1)[0] == '\n');
        }
    }
    assert(text::find_from(entry, lf, 0) == Some(4int));
    assert(text::lines(entry) =~= seq![line] + text::lines(entry.skip(5)));
    assert(text::lines(entry) =~= seq![line]);
    let all = text::lines(front + entry);
    assert(all.last() == line);
    assert(text::trim_start_by(line, text::space_char()) == line);
    assert(text::trim_end_by(line, text::space_char()) == line);
    assert(text::trim(line) == line);
    assert(ignores_jj_line(all[all.len() - 1]));
    assert(with_jj_ignored(contents).take(contents.len() as int) =~= contents);
}

/// The lines of a text whose front is made of whole lines end with the lines of
/// its rest.
proof fn lemma_lines_of_last(front: Seq<char>, rest: Seq<char>)
    requires
        front.len() == 0 || front.last() == '\n',
    ensures
        text::lines(front + rest) == text::lines(front) + text::lines(rest),
    decreases front.len(),
{
    let lf = seq!['\n'];
    if front.len() == 0 {
        assert(front + rest =~= rest);
        assert(text::lines(front) + text::lines(rest) =~= text::lines(rest));
    } else {
        let whole = front + rest;
        assert(front.subrange(front.len() - 1, front.len() as int) =~= lf);
        assert(text::occurs_at(front, lf, front.len() - 1));
        if text::find_from(front, lf, 0) is None {
            text::lemma_find_none(front, lf, 0);
        }
        text::lemma_find_some(front, lf, 0);
        let i = text::find_from(front, lf, 0)->0;
        assert(text::occurs_at(front, lf, i));
        assert(whole.subrange(i, i + 1) =~= front.subrange(i, i + 1));
        assert(text::occurs_at(whole, lf, i));
        if text::find_from(whole, lf, 0) is None {
            text::lemma_find_none(whole, lf, 0);
        }
        text::lemma_find_some(whole, lf, 0);
        let k = text::find_from(whole, lf, 0)->0;
        if k < i {
            assert(front.subrange(k, k + 1) =~= whole.subrange(k, k + 1));
            assert(text::occurs_at(front, lf, k));
        }
        assert(k == i);
        assert(whole.take(i) =~= front.take(i));
        assert(whole.skip(i + 1) =~= front.skip(i + 1) + rest);
        let next = front.skip(i + 1);
        if next.len() > 0 {
            assert(next.last() == front.last());
        }
        lemma_lines_of_last(next, rest);
        assert(text::lines(whole) =~= seq![text::strip_cr(whole.take(i))] + text::lines(
            whole.skip(i + 1),
        ));
        assert(text::lines(front) =~= seq![text::strip_cr(front.take(i))] + text::lines(next));
        assert(text::lines(whole) =~= text::lines(front) + text::lines(rest));
    }
}

/// A setup goes through: the config file where there is none, then the bookmark
/// where one is asked for and missing, at the parent of the working copy, then
/// the ignore file where the repo is shared with git and does not ignore jj yet.
pub proof fn law_init_goes_through(
    path: Seq<char>,
    config: RepoConfig,
    bookmark: Seq<char>,
    none: Vec<LaneRev>,
    answer: IgnoreAnswer,
)
    requires
        none@.len() == 0,
    ensures
        ({
            let start = InitFacts {
                config_present: false,
                config_written: false,
                bookmarks: None,
                bookmark_created: false,
                ignore: None,
                ignore_written: false,
            };
            let written = InitFacts { config_written: true, ..start };
            let missing = InitFacts { bookmarks: Some(none), ..written };
            let created = InitFacts { bookmark_created: true, ..missing };
            let looked = InitFacts { ignore: Some(answer), ..created };
            let ignored = InitFacts { ignore_written: true, ..looked };
            let target = Some(bookmark);
            &&& init_next(path, config, target, start) is WriteConfig
            &&& init_next(path, config, None, written) is CheckIgnore
            &&& init_next(path, config, target, written) == InitStepView::AskBookmark(
                jj::revisions_args("present("@ + revset::quoted(bookmark) + ")"@),
            )
            &&& init_next(path, config, target, missing) == InitStepView::CreateBookmark(
                seq!["bookmark"@, "create"@, bookmark, "-r"@, "@-"@],
            )
            &&& init_next(path, config, target, created) is CheckIgnore
            &&& init_next(path, config, target, looked) is WriteIgnore <==> answer.colocated
                && !ignores_jj(answer.contents@)
            &&& !(init_next(path, config, target, looked) is WriteIgnore) ==> init_next(
                path,
                config,
                target,
                looked,
            ) is Done
            &&& init_next(path, config, target, ignored) is Done
        }),
{
}

/// An existing config agrees with a setup that asks for no target, and else
/// only where it has that very target.
pub proof fn law_existing_target_has_to_agree(config: RepoConfig, bookmark: Seq<char>)
    ensures
        target_agrees(config, None),
        target_agrees(config, Some(bookmark)) <==> (config.lane.target matches Some(current)
            && current@ == bookmark),
{
}

/// A new config holds the target that was asked for, in the lane table, behind
/// the scaffold.
pub proof fn law_new_config_holds_the_target(config: RepoConfig, bookmark: Seq<char>)
    ensures
        text::starts_with(new_config(config, Some(bookmark)), new_config(config, None)),
        new_config(config, Some(bookmark)) == new_config(config, None) + "\n[lane]\ntarget = "@
            + config::debug_text(bookmark) + "\n"@,
{
    let plain = new_config(config, None);
    assert(new_config(config, Some(bookmark)).take(plain.len() as int) =~= plain);
}

/// jj's state is ignored by its own entry alone, whatever space stands around
/// it, with or without slashes.
pub proof fn law_ignore_entries(line: Seq<char>)
    ensures
        ignores_jj_line(line) <==> text::trim(line) == ".jj"@ || text::trim(line) == ".jj/"@
            || text::trim(line) == "/.jj"@ || text::trim(line) == "/.jj/"@,
{
}

} // verus!
