//! Names and paths inside revset and fileset expressions.

use vstd::prelude::*;

use crate::text::{self, cat2, chars_of, copy};
use crate::types::WorkspaceName;

verus! {

/// A character as it stands in a quoted string.
pub open spec fn escaped_char(c: char) -> Seq<char> {
    if c == '"' {
        seq!['\\', '"']
    } else if c == '\\' {
        seq!['\\', '\\']
    } else {
        seq![c]
    }
}

/// A text as it stands in a quoted string.
pub open spec fn escaped(s: Seq<char>) -> Seq<char>
    decreases s.len(),
{
    if s.len() == 0 {
        Seq::empty()
    } else {
        escaped_char(s[0]) + escaped(s.skip(1))
    }
}

/// A text as a quoted string.
pub open spec fn quoted(s: Seq<char>) -> Seq<char> {
    seq!['"'] + escaped(s) + seq!['"']
}

/// The character that an escape stands for.
pub open spec fn unescaped_char(c: char) -> char {
    if c == 'n' {
        '\n'
    } else if c == 'r' {
        '\r'
    } else if c == 't' {
        '\t'
    } else if c == '0' {
        '\0'
    } else {
        c
    }
}

/// A text with its escapes undone; a backslash at the end stands for itself.
pub open spec fn unescaped(s: Seq<char>) -> Seq<char>
    decreases s.len(),
{
    if s.len() == 0 {
        Seq::empty()
    } else if s[0] == '\\' && s.len() >= 2 {
        seq![unescaped_char(s[1])] + unescaped(s.skip(2))
    } else {
        seq![s[0]] + unescaped(s.skip(1))
    }
}

/// Being surrounded by double quotes.
pub open spec fn is_quoted(s: Seq<char>) -> bool {
    s.len() >= 2 && s[0] == '"' && s.last() == '"'
}

/// A text with its quotes and escapes undone, where it is quoted.
pub open spec fn unquoted(s: Seq<char>) -> Seq<char> {
    if is_quoted(s) {
        unescaped(s.subrange(1, s.len() - 1))
    } else {
        s
    }
}

/// The symbol of a workspace's working copy in a revset.
pub open spec fn workspace_symbol(name: Seq<char>) -> Seq<char> {
    quoted(name) + "@"@
}

/// The fileset pattern that matches exactly one path.
pub open spec fn exact_pattern(path: Seq<char>) -> Seq<char> {
    "file:"@ + quoted(path)
}

/// Where a string that starts at the beginning of `s` ends: the position
/// behind its closing quote, given that the first `i` characters are inside.
pub open spec fn string_end(s: Seq<char>, i: int) -> Option<int>
    decreases s.len() - i,
{
    if i < 0 || i >= s.len() {
        None
    } else if s[i] == '"' {
        Some(i + 1)
    } else if s[i] == '\\' {
        if i + 1 < s.len() {
            string_end(s, i + 2)
        } else {
            None
        }
    } else {
        string_end(s, i + 1)
    }
}

/// Quote a text for a revset or fileset expression.
pub fn quote_revset_string(value: &str) -> (res: String)
    ensures
        res@ == quoted(value@),
{
    let chars = chars_of(value);
    let mut out = String::new();
    out.push('"');
    let mut i: usize = 0;
    assert(value@.skip(0) == value@);
    assert(seq!['"'] + escaped(value@) == out@ + escaped(value@));
    while i < chars.len()
        invariant
            i <= chars@.len(),
            chars@ == value@,
            seq!['"'] + escaped(value@) == out@ + escaped(value@.skip(i as int)),
        decreases chars@.len() - i,
    {
        let c = chars[i];
        let ghost before = out@;
        let ghost rest = value@.skip(i as int);
        assert(rest[0] == c);
        assert(rest.skip(1) == value@.skip(i + 1));
        if c == '"' {
            out.push('\\');
            out.push('"');
        } else if c == '\\' {
            out.push('\\');
            out.push('\\');
        } else {
            out.push(c);
        }
        assert(out@ == before + escaped_char(c));
        assert(before + (escaped_char(c) + escaped(rest.skip(1))) == out@ + escaped(rest.skip(1)));
        i = i + 1;
    }
    assert(value@.skip(i as int) =~= Seq::<char>::empty());
    assert(out@ + escaped(value@.skip(i as int)) == out@);
    out.push('"');
    out
}

/// Render a workspace name as a safely quoted revset symbol. Without the
/// quotes, characters like `|`, `~` or `::` in a name would change the meaning
/// of the surrounding revset.
pub fn workspace_revset_symbol(name: &WorkspaceName) -> (res: String)
    ensures
        res@ == workspace_symbol(name@),
{
    cat2(quote_revset_string(name.as_str()).as_str(), "@")
}

/// Render a repo-relative path as an exact-match `file:` fileset pattern. Raw
/// paths with pattern characters would match other files or none.
pub fn fileset_exact_pattern(path: &str) -> (res: String)
    ensures
        res@ == exact_pattern(path@),
{
    cat2("file:", quote_revset_string(path).as_str())
}

/// Undo the quoting of a name that `jj` rendered.
pub fn unquote_template_string(value: &str) -> (res: String)
    ensures
        res@ == unquoted(value@),
{
    let chars = chars_of(value);
    let n: usize = chars.len();
    if n < 2 || chars[0] != '"' || chars[n - 1] != '"' {
        return copy(value);
    }
    let ghost inner = value@.subrange(1, n - 1);
    let mut out = String::new();
    let mut i: usize = 1;
    assert(inner.skip(0) == inner);
    assert(unescaped(inner) == out@ + unescaped(inner));
    while i < n - 1
        invariant
            1 <= i <= n - 1,
            n == chars@.len(),
            n >= 2,
            chars@ == value@,
            inner == value@.subrange(1, n - 1),
            unescaped(inner) == out@ + unescaped(inner.skip(i - 1)),
        decreases n - i,
    {
        let c = chars[i];
        let ghost before = out@;
        let ghost rest = inner.skip(i - 1);
        assert(rest[0] == c);
        if c == '\\' && i + 1 < n - 1 {
            let e = chars[i + 1];
            assert(rest[1] == e);
            assert(rest.skip(2) == inner.skip(i + 1));
            if e == 'n' {
                out.push('\n');
            } else if e == 'r' {
                out.push('\r');
            } else if e == 't' {
                out.push('\t');
            } else if e == '0' {
                out.push('\0');
            } else {
                out.push(e);
            }
            assert(out@ == before + seq![unescaped_char(e)]);
            assert(before + (seq![unescaped_char(e)] + unescaped(rest.skip(2))) == out@ + unescaped(
                rest.skip(2),
            ));
            i = i + 2;
        } else {
            assert(rest.skip(1) == inner.skip(i as int));
            out.push(c);
            assert(out@ == before + seq![c]);
            assert(before + (seq![c] + unescaped(rest.skip(1))) == out@ + unescaped(rest.skip(1)));
            i = i + 1;
        }
    }
    assert(inner.skip(i - 1) =~= Seq::<char>::empty());
    assert(out@ + unescaped(inner.skip(i - 1)) == out@);
    out
}

/// Reading back a quoted text gives the text.
pub proof fn law_unquote_undoes_quote(s: Seq<char>)
    ensures
        unquoted(quoted(s)) == s,
{
    let q = quoted(s);
    assert(q.subrange(1, q.len() - 1) == escaped(s));
    lemma_unescape_escape(s);
}

proof fn lemma_unescape_escape(s: Seq<char>)
    ensures
        unescaped(escaped(s)) == s,
    decreases s.len(),
{
    if s.len() > 0 {
        let rest = s.skip(1);
        let e = escaped(s);
        lemma_unescape_escape(rest);
        if s[0] == '"' || s[0] == '\\' {
            assert(e.skip(2) == escaped(rest));
        } else {
            assert(e.skip(1) == escaped(rest));
        }
        assert(s == seq![s[0]] + rest);
    } else {
        assert(escaped(s) =~= s);
    }
}

/// Inside an expression, a quoted text is one string and nothing of what
/// follows it is: whoever reads the string from its first character on reaches
/// its end exactly where the quoted text ends.
pub proof fn law_quoted_text_is_one_string(s: Seq<char>, follow: Seq<char>)
    ensures
        quoted(s)[0] == '"',
        string_end(quoted(s) + follow, 1) == Some(quoted(s).len() as int),
{
    let all = quoted(s) + follow;
    assert(all.skip(1) =~= escaped(s) + seq!['"'] + follow);
    lemma_string_end(all, 1, s, follow);
}

proof fn lemma_string_end(all: Seq<char>, i: int, s: Seq<char>, follow: Seq<char>)
    requires
        0 <= i <= all.len(),
        all.skip(i) == escaped(s) + seq!['"'] + follow,
    ensures
        string_end(all, i) == Some(i + escaped(s).len() + 1),
    decreases s.len(),
{
    let tail = all.skip(i);
    assert(tail.len() == all.len() - i);
    assert(tail.len() >= 1);
    assert(tail[0] == all[i]);
    if s.len() == 0 {
        assert(tail =~= seq!['"'] + follow);
    } else {
        let rest = s.skip(1);
        let step = escaped_char(s[0]).len() as int;
        assert(all.skip(i + step) =~= tail.skip(step));
        assert(tail.skip(step) =~= escaped(rest) + seq!['"'] + follow);
        lemma_string_end(all, i + step, rest, follow);
    }
}

/// Quoting goes character by character: a quote and a backslash get a backslash
/// in front, and everything else stands for itself.
pub proof fn law_quoting_is_by_character(a: Seq<char>, b: Seq<char>, c: char)
    ensures
        escaped(a + b) == escaped(a) + escaped(b),
        c == '"' || c == '\\' ==> escaped(seq![c]) == seq!['\\', c],
        c != '"' && c != '\\' ==> escaped(seq![c]) == seq![c],
    decreases a.len(),
{
    reveal_with_fuel(escaped, 2);
    if a.len() == 0 {
        assert(a + b =~= b);
        assert(escaped(a) + escaped(b) =~= escaped(b));
    } else {
        law_quoting_is_by_character(a.skip(1), b, c);
        assert((a + b).skip(1) =~= a.skip(1) + b);
        assert(escaped(a + b) =~= escaped(a) + escaped(b));
    }
    assert(seq![c].skip(1) =~= Seq::<char>::empty());
    assert(escaped(seq![c]) =~= escaped_char(c));
}

/// A text without quotes around it is what it is; the known escapes in a quoted
/// one stand for their characters.
pub proof fn law_unquoting_reads_escapes(s: Seq<char>, rest: Seq<char>)
    ensures
        s.len() < 2 || s[0] != '"' || s.last() != '"' ==> unquoted(s) == s,
        unescaped(seq!['\\', 'n'] + rest) == seq!['\n'] + unescaped(rest),
        unescaped(seq!['\\', 't'] + rest) == seq!['\t'] + unescaped(rest),
        unescaped(seq!['\\', 'r'] + rest) == seq!['\r'] + unescaped(rest),
        unescaped(seq!['\\', '0'] + rest) == seq!['\0'] + unescaped(rest),
        unescaped(seq!['\\', '"'] + rest) == seq!['"'] + unescaped(rest),
        unescaped(seq!['\\', '\\'] + rest) == seq!['\\'] + unescaped(rest),
{
    assert((seq!['\\', 'n'] + rest).skip(2) =~= rest);
    assert((seq!['\\', 't'] + rest).skip(2) =~= rest);
    assert((seq!['\\', 'r'] + rest).skip(2) =~= rest);
    assert((seq!['\\', '0'] + rest).skip(2) =~= rest);
    assert((seq!['\\', '"'] + rest).skip(2) =~= rest);
    assert((seq!['\\', '\\'] + rest).skip(2) =~= rest);
}

/// A workspace is named by its quoted name, with an `@` behind it; a path by its
/// quoted text, as a file.
pub proof fn law_names_stand_quoted(name: Seq<char>)
    ensures
        workspace_symbol(name) == seq!['"'] + escaped(name) + seq!['"', '@'],
        exact_pattern(name) == "file:"@ + (seq!['"'] + escaped(name) + seq!['"']),
{
    reveal_strlit("@");
    assert("@"@ =~= seq!['@']);
    assert(workspace_symbol(name) =~= seq!['"'] + escaped(name) + seq!['"', '@']);
}

} // verus!
