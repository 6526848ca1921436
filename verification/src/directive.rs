//! The lines through which a switch changes the directory of a shell.

use vstd::prelude::*;

use crate::text::{self, cat2, cat3, replaced, trimmed};

verus! {

/// Environment variable used by shell integration to pass a directive file.
pub const DIRECTIVE_FILE_ENV_VAR: &'static str = "NAVI_DIRECTIVE_FILE";

/// Environment variable that a host harness sets, typically per tool call, to
/// receive the raw absolute path of a workspace switch. Unlike the shell
/// directive, which the wrapper sources, the harness gets the bare path, and
/// the last one of a command chain counts.
pub const HARNESS_CD_FILE_ENV_VAR: &'static str = "OMP_CD_FILE";

/// What a text becomes between single quotes: each single quote closes the
/// quotes, stands for itself behind a backslash, and opens them again.
pub open spec fn escaped(s: Seq<char>) -> Seq<char> {
    text::replace_char(s, '\'', "'\\''"@)
}

/// The text that a POSIX shell reads from a word made of single-quoted parts
/// and of characters behind a backslash; `quoted` says that the word begins
/// inside quotes. None where the word is made of anything else.
pub open spec fn shell_reads(word: Seq<char>, quoted: bool) -> Option<Seq<char>>
    decreases word.len(),
{
    if word.len() == 0 {
        if quoted {
            None
        } else {
            Some(Seq::empty())
        }
    } else if quoted {
        if word[0] == '\'' {
            shell_reads(word.skip(1), false)
        } else {
            prepend(word[0], shell_reads(word.skip(1), true))
        }
    } else if word[0] == '\'' {
        shell_reads(word.skip(1), true)
    } else if word[0] == '\\' && word.len() > 1 {
        prepend(word[1], shell_reads(word.skip(2), false))
    } else {
        None
    }
}

/// A text with one more character in front, where there is one.
pub open spec fn prepend(c: char, rest: Option<Seq<char>>) -> Option<Seq<char>> {
    match rest {
        Some(rest) => Some(seq![c] + rest),
        None => None,
    }
}

/// Escape single quotes for POSIX shell single-quoted strings.
pub fn escape_shell_single_quotes(value: &str) -> (res: String)
    ensures
        res@ == escaped(value@),
{
    replaced(value, '\'', "'\\''")
}

/// A file is named where the variable is set to more than white space.
pub open spec fn names_file(setting: Option<Seq<char>>) -> bool {
    match setting {
        Some(value) => text::trim(value).len() > 0,
        None => false,
    }
}

fn has_file(setting: &Option<String>) -> (res: bool)
    ensures
        res == names_file(text::opt_view(*setting)),
{
    match setting {
        Some(value) => {
            let length: usize = text::char_count(trimmed(value.as_str()).as_str());
            length > 0
        },
        None => false,
    }
}

/// The line to append to the directive file so that the shell changes to
/// `path`; none where shell integration is not active.
pub fn cd_directive(directive_file: &Option<String>, path: &str) -> (res: Option<String>)
    ensures
        text::opt_view(res) == (if names_file(text::opt_view(*directive_file)) {
            Some("cd -- '"@ + escaped(path@) + "'\n"@)
        } else {
            None
        }),
{
    if has_file(directive_file) {
        Some(cat3("cd -- '", escape_shell_single_quotes(path).as_str(), "'\n"))
    } else {
        None
    }
}

/// What the file of a host harness is to hold; none where no harness listens.
pub fn harness_line(harness_file: &Option<String>, path: &str) -> (res: Option<String>)
    ensures
        text::opt_view(res) == (if names_file(text::opt_view(*harness_file)) {
            Some(path@ + "\n"@)
        } else {
            None
        }),
{
    if has_file(harness_file) {
        Some(cat2(path, "\n"))
    } else {
        None
    }
}

/// A shell reads the escaped text between single quotes as the text itself,
/// whatever it holds.
pub proof fn law_shell_reads_the_path(s: Seq<char>)
    ensures
        shell_reads(seq!['\''] + escaped(s) + seq!['\''], false) == Some(s),
{
    let tail = seq!['\''];
    let word = seq!['\''] + escaped(s) + tail;
    assert(word.skip(1) =~= escaped(s) + tail);
    assert(tail.skip(1) =~= Seq::<char>::empty());
    assert(shell_reads(tail.skip(1), false) == Some(Seq::<char>::empty()));
    assert(shell_reads(tail, true) == Some(Seq::<char>::empty()));
    lemma_reads_on(s, tail);
    assert(s + Seq::<char>::empty() =~= s);
}

/// Inside quotes, the shell reads the escaped text and then what follows.
proof fn lemma_reads_on(s: Seq<char>, follow: Seq<char>)
    requires
        shell_reads(follow, true) is Some,
    ensures
        shell_reads(escaped(s) + follow, true) == Some(s + shell_reads(follow, true)->0),
    decreases s.len(),
{
    let rest = shell_reads(follow, true)->0;
    if s.len() == 0 {
        assert(escaped(s) + follow =~= follow);
        assert(s + rest =~= rest);
    } else {
        let c = s.last();
        let front = s.drop_last();
        if c == '\'' {
            reveal_strlit("'\\''");
            let quote = "'\\''"@;
            let more = quote + follow;
            assert(quote.len() == 4 && quote[0] == '\'' && quote[1] == '\\' && quote[2] == '\''
                && quote[3] == '\'');
            assert(more.skip(1).skip(2).skip(1) =~= follow);
            assert(more[0] == '\'');
            assert(more.skip(1)[0] == '\\' && more.skip(1)[1] == '\'');
            assert(more.skip(1).skip(2)[0] == '\'');
            assert(shell_reads(more.skip(1).skip(2), false) == Some(rest));
            assert(shell_reads(more.skip(1), false) == Some(seq!['\''] + rest));
            assert(shell_reads(more, true) == Some(seq!['\''] + rest));
            lemma_reads_on(front, more);
            assert(escaped(s) + follow =~= escaped(front) + more);
            assert(front + (seq!['\''] + rest) =~= s + rest);
        } else {
            let more = seq![c] + follow;
            assert(more.skip(1) =~= follow);
            assert(shell_reads(more, true) == Some(seq![c] + rest));
            lemma_reads_on(front, more);
            assert(escaped(s) + follow =~= escaped(front) + more);
            assert(front + (seq![c] + rest) =~= s + rest);
        }
    }
}

/// A file is named by anything but white space, and by nothing that is only
/// white space.
pub proof fn law_blank_settings_name_no_file(value: Seq<char>, i: int)
    ensures
        !names_file(None),
        (forall|k: int| 0 <= k < value.len() ==> text::is_space(#[trigger] value[k]))
            ==> !names_file(Some(value)),
        0 <= i < value.len() && !text::is_space(value[i]) ==> names_file(Some(value)),
{
    text::law_trim_keeps_what_is_no_space(value);
    if 0 <= i < value.len() && !text::is_space(value[i]) {
        assert(text::trim(value).len() > 0);
    }
}

} // verus!
