//! Text as sequences of characters: the vocabulary that every other module's
//! contracts are written in, and executable functions that match it.

use vstd::prelude::*;

verus! {

/// `String::push` appends one character to the end of the string.
pub assume_specification[ String::push ](s: &mut String, c: char)
    ensures
        final(s)@ == old(s)@.push(c),
;

/// The texts held by a sequence of strings.
pub open spec fn views(strings: Seq<String>) -> Seq<Seq<char>> {
    strings.map_values(|s: String| s@)
}

/// The text held by an optional string.
pub open spec fn opt_view(value: Option<String>) -> Option<Seq<char>> {
    match value {
        Some(s) => Some(s@),
        None => None,
    }
}

pub broadcast proof fn lemma_views_push(strings: Seq<String>, s: String)
    ensures
        #[trigger] views(strings.push(s)) == views(strings).push(s@),
{
    assert(views(strings.push(s)) =~= views(strings).push(s@));
}

pub proof fn lemma_views_empty(strings: Seq<String>)
    requires
        strings.len() == 0,
    ensures
        views(strings) == Seq::<Seq<char>>::empty(),
{
    assert(views(strings) =~= Seq::<Seq<char>>::empty());
}

/// Unicode `White_Space`.
pub open spec fn is_space(c: char) -> bool {
    ||| '\u{9}' <= c <= '\u{d}'
    ||| c == '\u{20}'
    ||| c == '\u{85}'
    ||| c == '\u{a0}'
    ||| c == '\u{1680}'
    ||| '\u{2000}' <= c <= '\u{200a}'
    ||| c == '\u{2028}'
    ||| c == '\u{2029}'
    ||| c == '\u{202f}'
    ||| c == '\u{205f}'
    ||| c == '\u{3000}'
}

pub open spec fn is_digit(c: char) -> bool {
    '0' <= c <= '9'
}

/// `s` without its leading characters that satisfy `drop`.
pub open spec fn trim_start_by(s: Seq<char>, drop: spec_fn(char) -> bool) -> Seq<char>
    decreases s.len(),
{
    if s.len() > 0 && drop(s[0]) {
        trim_start_by(s.skip(1), drop)
    } else {
        s
    }
}

/// `s` without its trailing characters that satisfy `drop`.
pub open spec fn trim_end_by(s: Seq<char>, drop: spec_fn(char) -> bool) -> Seq<char>
    decreases s.len(),
{
    if s.len() > 0 && drop(s.last()) {
        trim_end_by(s.drop_last(), drop)
    } else {
        s
    }
}

/// `s` without leading repetitions of `prefix`.
pub open spec fn trim_start_text(s: Seq<char>, prefix: Seq<char>) -> Seq<char>
    decreases s.len(),
{
    if prefix.len() > 0 && starts_with(s, prefix) {
        trim_start_text(s.skip(prefix.len() as int), prefix)
    } else {
        s
    }
}

/// `s` without leading and trailing whitespace.
pub open spec fn trim(s: Seq<char>) -> Seq<char> {
    trim_end_by(trim_start_by(s, |c: char| is_space(c)), |c: char| is_space(c))
}

/// `sub` occurs in `s` at position `i`.
pub open spec fn occurs_at(s: Seq<char>, sub: Seq<char>, i: int) -> bool {
    0 <= i && i + sub.len() <= s.len() && s.subrange(i, i + sub.len()) == sub
}

/// `sub` occurs somewhere in `s`.
pub open spec fn contains(s: Seq<char>, sub: Seq<char>) -> bool {
    exists|i: int| occurs_at(s, sub, i)
}

pub open spec fn starts_with(s: Seq<char>, prefix: Seq<char>) -> bool {
    prefix.len() <= s.len() && s.take(prefix.len() as int) == prefix
}

pub open spec fn ends_with(s: Seq<char>, suffix: Seq<char>) -> bool {
    suffix.len() <= s.len() && s.skip(s.len() - suffix.len()) == suffix
}

/// The first position, from `i` on, at which `sub` occurs in `s`.
pub open spec fn find_from(s: Seq<char>, sub: Seq<char>, i: int) -> Option<int>
    decreases s.len() - i,
{
    if i < 0 || i + sub.len() > s.len() {
        None
    } else if occurs_at(s, sub, i) {
        Some(i)
    } else if i == s.len() {
        None
    } else {
        find_from(s, sub, i + 1)
    }
}

/// What stands before and after the first occurrence of `sep` in `s`.
pub open spec fn split_once(s: Seq<char>, sep: Seq<char>) -> Option<(Seq<char>, Seq<char>)> {
    match find_from(s, sep, 0) {
        Some(i) => Some((s.take(i), s.skip(i + sep.len()))),
        None => None,
    }
}

/// The pieces of `s` between the characters that satisfy `cut`.
pub open spec fn split_by(s: Seq<char>, cut: spec_fn(char) -> bool) -> Seq<Seq<char>>
    decreases s.len(),
{
    if s.len() == 0 {
        seq![s]
    } else if cut(s.last()) {
        split_by(s.drop_last(), cut).push(Seq::empty())
    } else {
        let front = split_by(s.drop_last(), cut);
        front.drop_last().push(front.last().push(s.last()))
    }
}

/// The predicate that holds of the character `c` alone.
pub open spec fn is_char(c: char) -> spec_fn(char) -> bool {
    |x: char| x == c
}

/// The pieces of `s` between occurrences of the character `c`.
pub open spec fn split(s: Seq<char>, c: char) -> Seq<Seq<char>> {
    split_by(s, is_char(c))
}

/// `line` without one trailing carriage return.
pub open spec fn strip_cr(line: Seq<char>) -> Seq<char> {
    if line.len() > 0 && line.last() == '\r' {
        line.drop_last()
    } else {
        line
    }
}

/// The lines of `s`: each ends in a line feed, which together with a carriage
/// return before it is not part of the line; the last line may lack its line
/// feed, and then keeps a carriage return.
pub open spec fn lines(s: Seq<char>) -> Seq<Seq<char>>
    decreases s.len(),
{
    if s.len() == 0 {
        Seq::empty()
    } else {
        match find_from(s, seq!['\n'], 0) {
            None => seq![s],
            Some(i) => if 0 <= i < s.len() {
                seq![strip_cr(s.take(i))] + lines(s.skip(i + 1))
            } else {
                Seq::empty()
            },
        }
    }
}

/// `parts` one after another with `sep` between neighbours.
pub open spec fn join(parts: Seq<Seq<char>>, sep: Seq<char>) -> Seq<char>
    decreases parts.len(),
{
    if parts.len() == 0 {
        Seq::empty()
    } else if parts.len() == 1 {
        parts[0]
    } else {
        join(parts.drop_last(), sep) + sep + parts.last()
    }
}

/// `s` with every occurrence of the character `c` replaced by `with`.
pub open spec fn replace_char(s: Seq<char>, c: char, with: Seq<char>) -> Seq<char>
    decreases s.len(),
{
    if s.len() == 0 {
        Seq::empty()
    } else if s.last() == c {
        replace_char(s.drop_last(), c, with) + with
    } else {
        replace_char(s.drop_last(), c, with).push(s.last())
    }
}

/// The decimal digit for `d`, for `d` below ten.
pub open spec fn digit_char(d: nat) -> char {
    ('0' as u32 + d) as char
}

/// The decimal numeral of `n`.
pub open spec fn decimal(n: nat) -> Seq<char>
    decreases n,
{
    if n < 10 {
        seq![digit_char(n)]
    } else {
        decimal(n / 10).push(digit_char(n % 10))
    }
}

/// Every character of `s` is a decimal digit.
pub open spec fn all_digits(s: Seq<char>) -> bool {
    forall|i: int| 0 <= i < s.len() ==> is_digit(#[trigger] s[i])
}

/// The number that a sequence of decimal digits stands for.
pub open spec fn numeral_value(s: Seq<char>) -> nat
    decreases s.len(),
{
    if s.len() == 0 {
        0
    } else {
        (numeral_value(s.drop_last()) * 10 + (s.last() as u32 - '0' as u32)) as nat
    }
}

/// The unsigned number below `bound` that `s` spells, with at most one
/// leading plus sign.
pub open spec fn parsed_number(s: Seq<char>, bound: nat) -> Option<nat> {
    let digits = if s.len() > 0 && s[0] == '+' {
        s.skip(1)
    } else {
        s
    };
    if digits.len() > 0 && all_digits(digits) && numeral_value(digits) < bound {
        Some(numeral_value(digits))
    } else {
        None
    }
}

/// The predicate of being white space.
pub open spec fn space_char() -> spec_fn(char) -> bool {
    |c: char| is_space(c)
}

/// The predicate of being a decimal digit.
pub open spec fn digit_char_of() -> spec_fn(char) -> bool {
    |c: char| is_digit(c)
}

/// The predicate of not being a decimal digit.
pub open spec fn other_char_of() -> spec_fn(char) -> bool {
    |c: char| !is_digit(c)
}

/// The predicate of having a character.
pub open spec fn is_filled() -> spec_fn(Seq<char>) -> bool {
    |s: Seq<char>| s.len() > 0
}

/// The words of `s`, which white space separates.
pub open spec fn words(s: Seq<char>) -> Seq<Seq<char>> {
    split_by(s, space_char()).filter(is_filled())
}

/// The lines of `s` that are not empty.
pub open spec fn filled_lines(s: Seq<char>) -> Seq<Seq<char>> {
    lines(s).filter(is_filled())
}

/// The decimal digits at the start of `s`.
pub open spec fn leading_digits(s: Seq<char>) -> Seq<char> {
    s.take(s.len() - trim_start_by(s, digit_char_of()).len())
}

/// The last run of decimal digits in `s`.
pub open spec fn last_digit_run(s: Seq<char>) -> Seq<char> {
    let to_digit = trim_end_by(s, other_char_of());
    to_digit.skip(trim_end_by(to_digit, digit_char_of()).len() as int)
}

/// The characters of `s`.
pub fn chars_of(s: &str) -> (res: Vec<char>)
    ensures
        res@ == s@,
{
    let mut out: Vec<char> = Vec::new();
    for c in it: s.chars()
        invariant
            out@ == it.seq().take(it.index() as int),
            it.seq() == s@,
    {
        out.push(c);
        assert(it.seq().take(it.index() + 1) == it.seq().take(it.index() as int).push(c));
    }
    assert(out@ == s@);
    out
}

/// The string made of the characters from `from` up to `to`.
pub fn slice_string(chars: &Vec<char>, from: usize, to: usize) -> (res: String)
    requires
        from <= to <= chars@.len(),
    ensures
        res@ == chars@.subrange(from as int, to as int),
{
    let mut out: String = String::new();
    let mut i: usize = from;
    while i < to
        invariant
            from <= i <= to <= chars@.len(),
            out@ == chars@.subrange(from as int, i as int),
        decreases to - i,
    {
        out.push(chars[i]);
        i = i + 1;
        assert(chars@.subrange(from as int, i as int) == chars@.subrange(from as int, i - 1).push(
            chars@[i - 1],
        ));
    }
    out
}

/// The string made of `chars`.
pub fn string_of(chars: &Vec<char>) -> (res: String)
    ensures
        res@ == chars@,
{
    let out = slice_string(chars, 0, chars.len());
    assert(chars@.subrange(0, chars@.len() as int) == chars@);
    out
}

/// Whether two strings hold the same text.
pub fn same(a: &str, b: &str) -> (res: bool)
    ensures
        res == (a@ == b@),
{
    a.to_owned() == b.to_owned()
}

/// A new string with the text of `s`.
pub fn copy(s: &str) -> (res: String)
    ensures
        res@ == s@,
{
    s.to_owned()
}

/// New strings with the texts of `strings`.
pub fn copy_all(strings: &Vec<String>) -> (res: Vec<String>)
    ensures
        views(res@) == views(strings@),
{
    broadcast use lemma_views_push;

    let mut out: Vec<String> = Vec::new();
    let mut i: usize = 0;
    while i < strings.len()
        invariant
            i <= strings@.len(),
            views(out@) == views(strings@).take(i as int),
        decreases strings@.len() - i,
    {
        out.push(copy(strings[i].as_str()));
        i = i + 1;
        assert(views(strings@).take(i as int) == views(strings@).take(i - 1).push(
            views(strings@)[i - 1],
        ));
    }
    assert(views(strings@).take(i as int) == views(strings@));
    out
}

/// Add the texts of `more` behind those of `list`.
pub fn push_all(list: &mut Vec<String>, more: &Vec<String>)
    ensures
        views(final(list)@) == views(old(list)@) + views(more@),
{
    broadcast use lemma_views_push;

    let ghost before = views(list@);
    let ghost all = views(more@);
    let mut i: usize = 0;
    assert(before + all.take(0) =~= before);
    while i < more.len()
        invariant
            i <= more@.len(),
            all == views(more@),
            views(list@) == before + all.take(i as int),
        decreases more@.len() - i,
    {
        list.push(copy(more[i].as_str()));
        i = i + 1;
        assert(before + all.take(i as int) =~= (before + all.take(i - 1)).push(all[i - 1]));
    }
    assert(all.take(i as int) =~= all);
}

/// A new optional string with the text of `value`.
pub fn copy_opt(value: &Option<String>) -> (res: Option<String>)
    ensures
        opt_view(res) == opt_view(*value),
{
    match value {
        Some(s) => Some(copy(s.as_str())),
        None => None,
    }
}

pub fn cat2(a: &str, b: &str) -> (res: String)
    ensures
        res@ == a@ + b@,
{
    let mut s = a.to_owned();
    s.append(b);
    s
}

pub fn cat3(a: &str, b: &str, c: &str) -> (res: String)
    ensures
        res@ == a@ + b@ + c@,
{
    let mut s = cat2(a, b);
    s.append(c);
    s
}

pub fn cat4(a: &str, b: &str, c: &str, d: &str) -> (res: String)
    ensures
        res@ == a@ + b@ + c@ + d@,
{
    let mut s = cat3(a, b, c);
    s.append(d);
    s
}

pub fn cat5(a: &str, b: &str, c: &str, d: &str, e: &str) -> (res: String)
    ensures
        res@ == a@ + b@ + c@ + d@ + e@,
{
    let mut s = cat4(a, b, c, d);
    s.append(e);
    s
}

pub fn cat7(a: &str, b: &str, c: &str, d: &str, e: &str, f: &str, g: &str) -> (res: String)
    ensures
        res@ == a@ + b@ + c@ + d@ + e@ + f@ + g@,
{
    let mut s = cat5(a, b, c, d, e);
    s.append(f);
    s.append(g);
    s
}

/// Whether `c` is Unicode white space.
pub fn char_is_space(c: char) -> (res: bool)
    ensures
        res == is_space(c),
{
    ('\u{9}' <= c && c <= '\u{d}') || c == '\u{20}' || c == '\u{85}' || c == '\u{a0}' || c
        == '\u{1680}' || ('\u{2000}' <= c && c <= '\u{200a}') || c == '\u{2028}' || c == '\u{2029}'
        || c == '\u{202f}' || c == '\u{205f}' || c == '\u{3000}'
}

/// Whether `c` is an ASCII digit.
pub fn char_is_digit(c: char) -> (res: bool)
    ensures
        res == is_digit(c),
{
    '0' <= c && c <= '9'
}

/// Whether any character of `s` is white space.
pub fn has_space(s: &str) -> (res: bool)
    ensures
        res == (exists|i: int| 0 <= i < s@.len() && is_space(#[trigger] s@[i])),
{
    let chars = chars_of(s);
    let mut i: usize = 0;
    while i < chars.len()
        invariant
            i <= chars@.len(),
            chars@ == s@,
            forall|j: int| 0 <= j < i ==> !is_space(#[trigger] s@[j]),
        decreases chars@.len() - i,
    {
        if char_is_space(chars[i]) {
            assert(is_space(s@[i as int]));
            return true;
        }
        i = i + 1;
    }
    false
}

/// Whether the character `c` occurs in `s`.
pub fn has_char(s: &str, c: char) -> (res: bool)
    ensures
        res == s@.contains(c),
{
    let chars = chars_of(s);
    let mut i: usize = 0;
    while i < chars.len()
        invariant
            i <= chars@.len(),
            chars@ == s@,
            forall|j: int| 0 <= j < i ==> s@[j] != c,
        decreases chars@.len() - i,
    {
        if chars[i] == c {
            assert(s@[i as int] == c);
            return true;
        }
        i = i + 1;
    }
    false
}

/// Whether `sub` occurs in `chars` at position `at`.
pub fn chars_occur_at(chars: &Vec<char>, sub: &Vec<char>, at: usize) -> (res: bool)
    ensures
        res == occurs_at(chars@, sub@, at as int),
{
    if at > chars.len() || chars.len() - at < sub.len() {
        return false;
    }
    let n: usize = chars.len();
    let mut k: usize = 0;
    while k < sub.len()
        invariant
            k <= sub@.len(),
            n == chars@.len(),
            at + sub@.len() <= n,
            chars@.subrange(at as int, at + k) == sub@.take(k as int),
        decreases sub@.len() - k,
    {
        if chars[at + k] != sub[k] {
            assert(chars@.subrange(at as int, at + sub@.len())[k as int] == chars@[at + k]);
            assert(chars@.subrange(at as int, at + sub@.len()) != sub@);
            return false;
        }
        k = k + 1;
        assert(chars@.subrange(at as int, at + k) == chars@.subrange(at as int, at + k - 1).push(
            chars@[at + k - 1],
        ));
        assert(sub@.take(k as int) == sub@.take(k - 1).push(sub@[k - 1]));
    }
    assert(sub@.take(k as int) == sub@);
    true
}

/// Whether `s` starts with `prefix`.
pub fn has_prefix(s: &str, prefix: &str) -> (res: bool)
    ensures
        res == starts_with(s@, prefix@),
{
    let chars = chars_of(s);
    let sub = chars_of(prefix);
    proof {
        if prefix@.len() <= s@.len() {
            assert(s@.subrange(0, prefix@.len() as int) == s@.take(prefix@.len() as int));
        }
    }
    chars_occur_at(&chars, &sub, 0)
}

/// Whether `s` ends with `suffix`.
pub fn has_suffix(s: &str, suffix: &str) -> (res: bool)
    ensures
        res == ends_with(s@, suffix@),
{
    let chars = chars_of(s);
    let sub = chars_of(suffix);
    if sub.len() > chars.len() {
        return false;
    }
    let at: usize = chars.len() - sub.len();
    assert(s@.subrange(at as int, at + sub@.len()) == s@.skip(at as int));
    chars_occur_at(&chars, &sub, at)
}

/// The first position, from `from` on, at which `sub` occurs in `chars`.
pub fn find_chars(chars: &Vec<char>, sub: &Vec<char>, from: usize) -> (res: Option<usize>)
    ensures
        match res {
            Some(i) => find_from(chars@, sub@, from as int) == Some(i as int),
            None => find_from(chars@, sub@, from as int) is None,
        },
        res matches Some(i) ==> from <= i && occurs_at(chars@, sub@, i as int),
{
    let mut i: usize = from;
    while i <= chars.len() && sub.len() <= chars.len() - i
        invariant
            from <= i,
            from <= chars@.len() ==> i <= chars@.len() + 1,
            from > chars@.len() ==> i == from,
            find_from(chars@, sub@, from as int) == find_from(chars@, sub@, i as int),
        decreases chars@.len() + 1 - i,
    {
        if chars_occur_at(chars, sub, i) {
            return Some(i);
        }
        if i == chars.len() {
            return None;
        }
        i = i + 1;
    }
    None
}

pub proof fn lemma_find_none(s: Seq<char>, sub: Seq<char>, from: int)
    requires
        from >= 0,
        find_from(s, sub, from) is None,
    ensures
        forall|i: int| from <= i ==> !occurs_at(s, sub, i),
    decreases s.len() - from,
{
    if from + sub.len() <= s.len() && from < s.len() {
        lemma_find_none(s, sub, from + 1);
        assert forall|i: int| from <= i implies !occurs_at(s, sub, i) by {
            if i > from {
            }
        }
    }
}

pub proof fn lemma_find_some(s: Seq<char>, sub: Seq<char>, from: int)
    ensures
        find_from(s, sub, from) matches Some(i) ==> {
            &&& from <= i
            &&& occurs_at(s, sub, i)
            &&& forall|j: int| from <= j < i ==> !occurs_at(s, sub, j)
        },
    decreases s.len() - from,
{
    if 0 <= from && from + sub.len() <= s.len() && !occurs_at(s, sub, from) && from < s.len() {
        lemma_find_some(s, sub, from + 1);
    }
}

/// Whether `sub` occurs in `s`.
pub fn has_text(s: &str, sub: &str) -> (res: bool)
    ensures
        res == contains(s@, sub@),
{
    let chars = chars_of(s);
    let needle = chars_of(sub);
    match find_chars(&chars, &needle, 0) {
        Some(i) => {
            assert(occurs_at(s@, sub@, i as int));
            true
        },
        None => {
            proof {
                lemma_find_none(s@, sub@, 0);
            }
            false
        },
    }
}

/// What stands before and after the first `sep` in `s`.
pub fn cut_once(s: &str, sep: &str) -> (res: Option<(String, String)>)
    ensures
        match res {
            Some((before, after)) => split_once(s@, sep@) == Some((before@, after@)),
            None => split_once(s@, sep@) is None,
        },
{
    let chars = chars_of(s);
    let sub = chars_of(sep);
    match find_chars(&chars, &sub, 0) {
        Some(i) => {
            let before = slice_string(&chars, 0, i);
            let n: usize = chars.len();
            let after = slice_string(&chars, i + sub.len(), n);
            assert(s@.subrange(0, i as int) == s@.take(i as int));
            assert(s@.subrange(i + sep@.len(), s@.len() as int) == s@.skip(i + sep@.len()));
            Some((before, after))
        },
        None => None,
    }
}

/// The first position from which `chars` is not white space.
fn space_end(chars: &Vec<char>) -> (res: usize)
    ensures
        res <= chars@.len(),
        trim_start_by(chars@, |c: char| is_space(c)) == chars@.skip(res as int),
{
    let ghost space = |c: char| is_space(c);
    let mut i: usize = 0;
    assert(chars@.skip(0) == chars@);
    while i < chars.len() && char_is_space(chars[i])
        invariant
            i <= chars@.len(),
            space == (|c: char| is_space(c)),
            trim_start_by(chars@, space) == trim_start_by(chars@.skip(i as int), space),
        decreases chars@.len() - i,
    {
        assert(chars@.skip(i as int)[0] == chars@[i as int]);
        assert(chars@.skip(i as int).skip(1) == chars@.skip(i + 1));
        i = i + 1;
    }
    proof {
        if i < chars@.len() {
            assert(chars@.skip(i as int)[0] == chars@[i as int]);
        }
    }
    i
}

/// `s` without leading and trailing white space.
pub fn trimmed(s: &str) -> (res: String)
    ensures
        res@ == trim(s@),
{
    let chars = chars_of(s);
    let from: usize = space_end(&chars);
    let ghost space = |c: char| is_space(c);
    let ghost rest = chars@.skip(from as int);
    let mut to: usize = chars.len();
    assert(rest == chars@.subrange(from as int, to as int));
    while from < to && char_is_space(chars[to - 1])
        invariant
            from <= to <= chars@.len(),
            space == (|c: char| is_space(c)),
            trim_end_by(rest, space) == trim_end_by(
                chars@.subrange(from as int, to as int),
                space,
            ),
        decreases to,
    {
        let ghost cur = chars@.subrange(from as int, to as int);
        assert(cur.last() == chars@[to - 1]);
        assert(cur.drop_last() == chars@.subrange(from as int, to - 1));
        to = to - 1;
    }
    proof {
        let cur = chars@.subrange(from as int, to as int);
        if from < to {
            assert(cur.last() == chars@[to - 1]);
        }
    }
    slice_string(&chars, from, to)
}

/// `s` without trailing occurrences of `c`.
pub fn trimmed_end_char(s: &str, c: char) -> (res: String)
    ensures
        res@ == trim_end_by(s@, is_char(c)),
{
    let chars = chars_of(s);
    let ghost drop = is_char(c);
    let mut to: usize = chars.len();
    assert(s@ == chars@.subrange(0, to as int));
    while 0 < to && chars[to - 1] == c
        invariant
            to <= chars@.len(),
            drop == is_char(c),
            trim_end_by(s@, drop) == trim_end_by(chars@.subrange(0, to as int), drop),
        decreases to,
    {
        let ghost cur = chars@.subrange(0, to as int);
        assert(cur.last() == chars@[to - 1]);
        assert(cur.drop_last() == chars@.subrange(0, to - 1));
        to = to - 1;
    }
    proof {
        let cur = chars@.subrange(0, to as int);
        if 0 < to {
            assert(cur.last() == chars@[to - 1]);
        }
    }
    slice_string(&chars, 0, to)
}

/// The lines of `s`.
pub fn lines_of(s: &str) -> (res: Vec<String>)
    ensures
        views(res@) == lines(s@),
{
    broadcast use lemma_views_push;

    let chars = chars_of(s);
    let mut feed: Vec<char> = Vec::new();
    feed.push('\n');
    assert(feed@ == seq!['\n']);
    let mut out: Vec<String> = Vec::new();
    let mut start: usize = 0;
    proof {
        lemma_views_empty(out@);
        assert(chars@.skip(0) == chars@);
        assert(Seq::<Seq<char>>::empty() + lines(s@) == lines(s@));
    }
    while start < chars.len()
        invariant
            start <= chars@.len(),
            chars@ == s@,
            feed@ == seq!['\n'],
            views(out@) + lines(s@.skip(start as int)) == lines(s@),
        decreases chars@.len() - start,
    {
        let ghost rest = s@.skip(start as int);
        let rest_chars = chars_of(slice_string(&chars, start, chars.len()).as_str());
        assert(rest_chars@ == rest);
        match find_chars(&rest_chars, &feed, 0) {
            None => {
                out.push(string_of(&rest_chars));
                assert(lines(rest) == seq![rest]);
                assert(s@.skip(chars@.len() as int) == Seq::<char>::empty());
                assert(views(out@) + lines(s@.skip(chars@.len() as int)) == lines(s@));
                start = chars.len();
            },
            Some(i) => {
                let end: usize = if i > 0 && rest_chars[i - 1] == '\r' {
                    i - 1
                } else {
                    i
                };
                let line = slice_string(&rest_chars, 0, end);
                assert(line@ == strip_cr(rest.take(i as int))) by {
                    if i > 0 && rest[i - 1] == '\r' {
                        assert(rest.take(i as int).last() == '\r');
                    } else if i > 0 {
                        assert(rest.take(i as int).last() == rest[i - 1]);
                    }
                };
                out.push(line);
                assert(rest.skip(i + 1) == s@.skip(start + i + 1));
                assert(lines(rest) == seq![line@] + lines(s@.skip(start + i + 1)));
                start = start + i + 1;
                assert(views(out@) + lines(s@.skip(start as int)) == lines(s@));
            },
        }
    }
    assert(s@.skip(start as int) == Seq::<char>::empty());
    assert(views(out@) == lines(s@));
    out
}

/// The pieces of `s` between occurrences of `c`.
pub fn pieces_of(s: &str, c: char) -> (res: Vec<String>)
    ensures
        views(res@) == split(s@, c),
        res@.len() > 0,
{
    broadcast use lemma_views_push;

    let chars = chars_of(s);
    let ghost cut = is_char(c);
    let mut out: Vec<String> = Vec::new();
    let mut piece: String = String::new();
    let mut i: usize = 0;
    proof {
        lemma_views_empty(out@);
        assert(s@.take(0) == Seq::<char>::empty());
        assert(views(out@).push(piece@) =~= seq![Seq::<char>::empty()]);
    }
    while i < chars.len()
        invariant
            i <= chars@.len(),
            chars@ == s@,
            cut == is_char(c),
            split_by(s@.take(i as int), cut) == views(out@).push(piece@),
        decreases chars@.len() - i,
    {
        let ghost before = s@.take(i as int);
        let ghost after = s@.take(i + 1);
        assert(after.last() == s@[i as int] && after.drop_last() == before);
        let ghost front = split_by(before, cut);
        assert(front.drop_last() == views(out@));
        assert(front.last() == piece@);
        if chars[i] == c {
            out.push(piece);
            piece = String::new();
        } else {
            piece.push(chars[i]);
        }
        i = i + 1;
        assert(split_by(after, cut) == views(out@).push(piece@));
    }
    assert(s@.take(i as int) == s@);
    out.push(piece);
    out
}

/// `parts` with `sep` between neighbours.
pub fn joined(parts: &Vec<String>, sep: &str) -> (res: String)
    ensures
        res@ == join(views(parts@), sep@),
{
    let mut out: String = String::new();
    let mut i: usize = 0;
    let ghost all = views(parts@);
    assert(all.take(0) == Seq::<Seq<char>>::empty());
    while i < parts.len()
        invariant
            i <= parts@.len(),
            all == views(parts@),
            out@ == join(all.take(i as int), sep@),
        decreases parts@.len() - i,
    {
        assert(all.take(i + 1).drop_last() == all.take(i as int));
        assert(all.take(i + 1).last() == parts@[i as int]@);
        if i > 0 {
            out.append(sep);
            out.append(parts[i].as_str());
        } else {
            out = copy(parts[i].as_str());
        }
        i = i + 1;
    }
    assert(all.take(i as int) == all);
    out
}

/// `s` with every `c` replaced by `with`.
pub fn replaced(s: &str, c: char, with: &str) -> (res: String)
    ensures
        res@ == replace_char(s@, c, with@),
{
    let chars = chars_of(s);
    let mut out: String = String::new();
    let mut i: usize = 0;
    assert(s@.take(0) == Seq::<char>::empty());
    while i < chars.len()
        invariant
            i <= chars@.len(),
            chars@ == s@,
            out@ == replace_char(s@.take(i as int), c, with@),
        decreases chars@.len() - i,
    {
        assert(s@.take(i + 1).drop_last() == s@.take(i as int));
        assert(s@.take(i + 1).last() == s@[i as int]);
        if chars[i] == c {
            out.append(with);
        } else {
            out.push(chars[i]);
        }
        i = i + 1;
    }
    assert(s@.take(i as int) == s@);
    out
}

/// The first `n` characters of `s`, or all of `s` where it is shorter.
pub fn prefix_of(s: &str, n: usize) -> (res: String)
    ensures
        res@ == (if s@.len() <= n {
            s@
        } else {
            s@.take(n as int)
        }),
{
    let chars = chars_of(s);
    if chars.len() <= n {
        copy(s)
    } else {
        assert(s@.subrange(0, n as int) == s@.take(n as int));
        slice_string(&chars, 0, n)
    }
}

/// `s` without its first `n` characters.
pub fn skip_chars(s: &str, n: usize) -> (res: String)
    requires
        n <= s@.len(),
    ensures
        res@ == s@.skip(n as int),
{
    let chars = chars_of(s);
    assert(s@.subrange(n as int, s@.len() as int) == s@.skip(n as int));
    slice_string(&chars, n, chars.len())
}

/// How many characters `s` has.
pub fn char_count(s: &str) -> (res: usize)
    ensures
        res == s@.len(),
{
    let chars = chars_of(s);
    chars.len()
}

/// `s` without leading repetitions of `prefix`.
pub fn trimmed_start_text(s: &str, prefix: &str) -> (res: String)
    ensures
        res@ == trim_start_text(s@, prefix@),
{
    let step: usize = char_count(prefix);
    let mut out = copy(s);
    while step > 0 && has_prefix(out.as_str(), prefix)
        invariant
            step == prefix@.len(),
            trim_start_text(s@, prefix@) == trim_start_text(out@, prefix@),
        decreases out@.len(),
    {
        out = skip_chars(out.as_str(), step);
    }
    out
}

/// The digit character of `d`.
fn digit(d: u8) -> (res: char)
    requires
        d < 10,
    ensures
        res == digit_char(d as nat),
{
    (48u8 + d) as char
}

/// The decimal numeral of `n`.
pub fn number(n: u128) -> (res: String)
    ensures
        res@ == decimal(n as nat),
    decreases n,
{
    if n < 10 {
        let mut out: String = String::new();
        out.push(digit(n as u8));
        assert(out@ == seq![digit_char(n as nat)]);
        out
    } else {
        let mut out = number(n / 10);
        out.push(digit((n % 10) as u8));
        out
    }
}

/// The decimal numeral of a size.
pub fn size_number(n: usize) -> (res: String)
    ensures
        res@ == decimal(n as nat),
{
    number(n as u128)
}

proof fn lemma_numeral_grows(s: Seq<char>, i: int)
    requires
        0 <= i <= s.len(),
        all_digits(s),
    ensures
        numeral_value(s.take(i)) <= numeral_value(s),
    decreases s.len() - i,
{
    if i < s.len() {
        lemma_numeral_grows(s, i + 1);
        assert(s.take(i + 1).drop_last() == s.take(i));
        assert(s.take(i + 1).last() == s[i]);
        assert(is_digit(s[i]));
    } else {
        assert(s.take(i) == s);
    }
}

/// The unsigned number of at most `max` that `s` spells in decimal, with at
/// most one leading plus sign.
pub fn parse_number(s: &str, max: u64) -> (res: Option<u64>)
    ensures
        match res {
            Some(n) => parsed_number(s@, (max + 1) as nat) == Some(n as nat),
            None => parsed_number(s@, (max + 1) as nat) is None,
        },
{
    let all = chars_of(s);
    let from: usize = if all.len() > 0 && all[0] == '+' {
        1
    } else {
        0
    };
    let ghost digits = s@.skip(from as int);
    assert(from == 0 ==> digits == s@);
    if from == all.len() {
        return None;
    }
    let mut value: u64 = 0;
    let mut i: usize = from;
    assert(digits.take(0) == Seq::<char>::empty());
    while i < all.len()
        invariant
            from <= i <= all@.len(),
            all@ == s@,
            digits == s@.skip(from as int),
            digits == (if s@.len() > 0 && s@[0] == '+' {
                s@.skip(1)
            } else {
                s@
            }),
            forall|j: int| 0 <= j < i - from ==> is_digit(#[trigger] digits[j]),
            value == numeral_value(digits.take(i - from)),
            value <= max,
        decreases all@.len() - i,
    {
        let c: char = all[i];
        assert(digits[i - from] == c);
        if !char_is_digit(c) {
            return None;
        }
        let d: u64 = c as u64 - '0' as u64;
        proof {
            assert(digits.take(i - from + 1).drop_last() == digits.take(i - from));
            assert(digits.take(i - from + 1).last() == c);
            assert(numeral_value(digits.take(i - from + 1)) == value * 10 + d);
        }
        if value > max / 10 || d > max - value * 10 {
            proof {
                if all_digits(digits) {
                    lemma_numeral_grows(digits, i - from + 1);
                }
            }
            return None;
        }
        value = value * 10 + d;
        i = i + 1;
    }
    assert(digits.take(i - from) == digits);
    Some(value)
}

/// The words of `s`.
pub fn words_of(s: &str) -> (res: Vec<String>)
    ensures
        views(res@) == words(s@),
{
    broadcast use lemma_views_push;

    let chars = chars_of(s);
    let ghost cut = space_char();
    let ghost keep = is_filled();
    let mut out: Vec<String> = Vec::new();
    let mut piece: String = String::new();
    let mut i: usize = 0;
    proof {
        reveal(Seq::filter);
        assert(s@.take(0) =~= Seq::<char>::empty());
        assert(split_by(s@.take(0), cut) == seq![s@.take(0)]);
        assert(split_by(s@.take(0), cut).drop_last() =~= Seq::<Seq<char>>::empty());
        lemma_views_empty(out@);
        assert(piece@ =~= s@.take(0));
    }
    while i < chars.len()
        invariant
            i <= chars@.len(),
            chars@ == s@,
            cut == space_char(),
            keep == is_filled(),
            split_by(s@.take(i as int), cut).len() > 0,
            split_by(s@.take(i as int), cut).last() == piece@,
            views(out@) == split_by(s@.take(i as int), cut).drop_last().filter(keep),
        decreases chars@.len() - i,
    {
        let c: char = chars[i];
        let ghost front = split_by(s@.take(i as int), cut);
        proof {
            assert(s@.take(i + 1).drop_last() == s@.take(i as int));
            assert(s@.take(i + 1).last() == c);
        }
        if char_is_space(c) {
            proof {
                reveal(Seq::filter);
                assert(front.push(Seq::empty()).drop_last() =~= front);
                assert(front.drop_last().push(front.last()) =~= front);
            }
            if char_count(piece.as_str()) > 0 {
                out.push(piece);
            }
            piece = String::new();
            assert(piece@ =~= Seq::<char>::empty());
        } else {
            piece.push(c);
            proof {
                let next = front.drop_last().push(front.last().push(c));
                assert(next.drop_last() =~= front.drop_last());
            }
        }
        i = i + 1;
    }
    proof {
        let all = split_by(s@, cut);
        reveal(Seq::filter);
        assert(s@.take(i as int) == s@);
    }
    if char_count(piece.as_str()) > 0 {
        out.push(piece);
    }
    out
}

/// The lines of `s` that are not empty.
pub fn filled_lines_of(s: &str) -> (res: Vec<String>)
    ensures
        views(res@) == filled_lines(s@),
{
    broadcast use lemma_views_push;

    let all = lines_of(s);
    let ghost texts = lines(s@);
    let ghost keep = is_filled();
    let mut out: Vec<String> = Vec::new();
    let mut i: usize = 0;
    proof {
        reveal(Seq::filter);
        assert(texts.take(0).filter(keep) =~= Seq::<Seq<char>>::empty());
        lemma_views_empty(out@);
        assert(views(all@).len() == all@.len());
    }
    while i < all.len()
        invariant
            i <= all@.len(),
            keep == is_filled(),
            texts == views(all@),
            views(out@) == texts.take(i as int).filter(keep),
        decreases all@.len() - i,
    {
        proof {
            reveal(Seq::filter);
            assert(texts.take(i + 1).drop_last() == texts.take(i as int));
            assert(texts.take(i + 1).last() == all@[i as int]@);
        }
        if char_count(all[i].as_str()) > 0 {
            out.push(copy(all[i].as_str()));
        }
        i = i + 1;
    }
    assert(texts.take(i as int) == texts);
    out
}

/// The decimal digits at the start of `s`.
pub fn leading_digits_of(s: &str) -> (res: String)
    ensures
        res@ == leading_digits(s@),
{
    let chars = chars_of(s);
    let ghost drop = digit_char_of();
    let mut i: usize = 0;
    assert(s@.skip(0) == s@);
    while i < chars.len() && char_is_digit(chars[i])
        invariant
            i <= chars@.len(),
            chars@ == s@,
            drop == digit_char_of(),
            trim_start_by(s@, drop) == trim_start_by(s@.skip(i as int), drop),
        decreases chars@.len() - i,
    {
        assert(s@.skip(i as int)[0] == chars@[i as int]);
        assert(s@.skip(i as int).skip(1) == s@.skip(i + 1));
        i = i + 1;
    }
    proof {
        if i < chars@.len() {
            assert(s@.skip(i as int)[0] == chars@[i as int]);
        }
        assert(trim_start_by(s@, drop) == s@.skip(i as int));
        assert(s@.subrange(0, i as int) == s@.take(i as int));
    }
    slice_string(&chars, 0, i)
}

/// The last run of decimal digits in `s`.
pub fn last_digit_run_of(s: &str) -> (res: String)
    ensures
        res@ == last_digit_run(s@),
{
    let chars = chars_of(s);
    let ghost other = other_char_of();
    let ghost digit = digit_char_of();
    let mut to: usize = chars.len();
    assert(s@.take(to as int) == s@);
    while 0 < to && !char_is_digit(chars[to - 1])
        invariant
            to <= chars@.len(),
            chars@ == s@,
            other == other_char_of(),
            trim_end_by(s@, other) == trim_end_by(s@.take(to as int), other),
        decreases to,
    {
        assert(s@.take(to as int).last() == chars@[to - 1]);
        assert(s@.take(to as int).drop_last() == s@.take(to - 1));
        to = to - 1;
    }
    let ghost cut = s@.take(to as int);
    proof {
        if 0 < to {
            assert(cut.last() == chars@[to - 1]);
        }
        assert(trim_end_by(s@, other) == cut);
        assert(cut.take(to as int) == cut);
    }
    let mut from: usize = to;
    while 0 < from && char_is_digit(chars[from - 1])
        invariant
            from <= to <= chars@.len(),
            chars@ == s@,
            cut == s@.take(to as int),
            digit == digit_char_of(),
            trim_end_by(cut, digit) == trim_end_by(cut.take(from as int), digit),
        decreases from,
    {
        assert(cut.take(from as int).last() == chars@[from - 1]);
        assert(cut.take(from as int).drop_last() == cut.take(from - 1));
        from = from - 1;
    }
    proof {
        if 0 < from {
            assert(cut.take(from as int).last() == chars@[from - 1]);
        }
        assert(trim_end_by(cut, digit) == cut.take(from as int));
        assert(s@.subrange(from as int, to as int) == cut.skip(from as int));
    }
    slice_string(&chars, from, to)
}

// ---------------------------------------------------------------------------
// Laws

proof fn lemma_trim_start(s: Seq<char>, drop: spec_fn(char) -> bool) -> (n: int)
    ensures
        0 <= n <= s.len(),
        trim_start_by(s, drop) == s.skip(n),
        forall|i: int| 0 <= i < n ==> drop(#[trigger] s[i]),
        n < s.len() ==> !drop(s[n]),
    decreases s.len(),
{
    if s.len() > 0 && drop(s[0]) {
        let t = s.skip(1);
        let n = lemma_trim_start(t, drop);
        assert(t.skip(n) =~= s.skip(n + 1));
        assert forall|i: int| 0 <= i < n + 1 implies drop(#[trigger] s[i]) by {
            if i > 0 {
                assert(t[i - 1] == s[i]);
            }
        }
        if n + 1 < s.len() {
            assert(t[n] == s[n + 1]);
        }
        n + 1
    } else {
        assert(s.skip(0) =~= s);
        0
    }
}

proof fn lemma_trim_end(s: Seq<char>, drop: spec_fn(char) -> bool) -> (n: int)
    ensures
        0 <= n <= s.len(),
        trim_end_by(s, drop) == s.take(n),
        forall|i: int| n <= i < s.len() ==> drop(#[trigger] s[i]),
        n > 0 ==> !drop(s[n - 1]),
    decreases s.len(),
{
    if s.len() > 0 && drop(s.last()) {
        let t = s.drop_last();
        let n = lemma_trim_end(t, drop);
        assert(t.take(n) =~= s.take(n));
        assert forall|i: int| n <= i < s.len() implies drop(#[trigger] s[i]) by {
            if i < t.len() {
                assert(t[i] == s[i]);
            }
        }
        if n > 0 {
            assert(t[n - 1] == s[n - 1]);
        }
        n
    } else {
        assert(s.take(s.len() as int) =~= s);
        s.len() as int
    }
}

/// Trimming takes white space off both ends and nothing else: what is left is a
/// part of the text, what stood around it is white space, and it neither begins
/// nor ends with white space.
pub proof fn law_trim_keeps_what_is_no_space(s: Seq<char>)
    ensures
        exists|from: int, to: int| #[trigger]
            is_inner(s, from, to) && trim(s) == s.subrange(from, to),
        trim(s).len() > 0 ==> !is_space(trim(s)[0]) && !is_space(trim(s).last()),
        trim(s).len() == 0 <==> forall|i: int| 0 <= i < s.len() ==> is_space(#[trigger] s[i]),
{
    let drop = |c: char| is_space(c);
    let from = lemma_trim_start(s, drop);
    let rest = s.skip(from);
    let n = lemma_trim_end(rest, drop);
    assert(trim(s) == rest.take(n));
    assert(rest.take(n) =~= s.subrange(from, from + n));
    assert forall|i: int| from + n <= i < s.len() implies is_space(#[trigger] s[i]) by {
        assert(drop(rest[i - from]));
    }
    assert forall|i: int| 0 <= i < from implies is_space(#[trigger] s[i]) by {
        assert(drop(s[i]));
    }
    assert(is_inner(s, from, from + n));
    if n > 0 {
        assert(!drop(rest[n - 1]));
        assert(rest[0] == s[from]);
        assert(!drop(s[from]));
    }
}

/// All that stands outside the range is white space.
pub open spec fn is_inner(s: Seq<char>, from: int, to: int) -> bool {
    &&& 0 <= from <= to <= s.len()
    &&& forall|i: int| 0 <= i < from ==> is_space(#[trigger] s[i])
    &&& forall|i: int| to <= i < s.len() ==> is_space(#[trigger] s[i])
}

/// Joining puts the separator between any two parts, and only there.
pub proof fn law_join_separates(front: Seq<Seq<char>>, back: Seq<Seq<char>>, sep: Seq<char>)
    ensures
        front.len() > 0 && back.len() > 0 ==> join(front + back, sep) == join(front, sep) + sep
            + join(back, sep),
        forall|part: Seq<char>| #[trigger] join(seq![part], sep) == part,
        join(Seq::empty(), sep) == Seq::<char>::empty(),
    decreases back.len(),
{
    if front.len() > 0 && back.len() > 0 {
        assert((front + back).drop_last() =~= front + back.drop_last());
        assert((front + back).last() == back.last());
        if back.len() == 1 {
            assert(front + back.drop_last() =~= front);
        } else {
            law_join_separates(front, back.drop_last(), sep);
            assert(join(front + back, sep) =~= join(front, sep) + sep + join(back, sep));
        }
    }
}

/// Replacing works character by character: what is no occurrence stays, and the
/// rest is replaced, wherever it stands.
pub proof fn law_replace_is_by_character(a: Seq<char>, b: Seq<char>, c: char, with: Seq<char>)
    ensures
        replace_char(a + b, c, with) == replace_char(a, c, with) + replace_char(b, c, with),
        replace_char(seq![c], c, with) == with,
        forall|d: char| d != c ==> #[trigger] replace_char(seq![d], c, with) == seq![d],
    decreases b.len(),
{
    reveal_with_fuel(replace_char, 2);
    if b.len() == 0 {
        assert(a + b =~= a);
        assert(replace_char(a + b, c, with) =~= replace_char(a, c, with) + replace_char(
            b,
            c,
            with,
        ));
    } else {
        law_replace_is_by_character(a, b.drop_last(), c, with);
        assert((a + b).drop_last() =~= a + b.drop_last());
        assert(replace_char(a + b, c, with) =~= replace_char(a, c, with) + replace_char(
            b,
            c,
            with,
        ));
    }
    assert(seq![c].drop_last() =~= Seq::<char>::empty());
    assert(replace_char(seq![c], c, with) =~= with);
    assert forall|d: char| d != c implies #[trigger] replace_char(seq![d], c, with) == seq![d] by {
        assert(seq![d].drop_last() =~= Seq::<char>::empty());
        assert(replace_char(seq![d], c, with) =~= seq![d]);
    }
}

/// A numeral stands for the number that it was written for.
pub proof fn law_decimal_reads_back(n: nat)
    ensures
        all_digits(decimal(n)),
        decimal(n).len() > 0,
        numeral_value(decimal(n)) == n,
        n > 0 ==> decimal(n)[0] != '0',
        forall|bound: nat| n < bound ==> #[trigger] parsed_number(decimal(n), bound) == Some(n),
    decreases n,
{
    reveal_with_fuel(numeral_value, 2);
    if n < 10 {
        assert(decimal(n).drop_last() =~= Seq::<char>::empty());
    } else {
        law_decimal_reads_back(n / 10);
        assert(decimal(n).drop_last() =~= decimal(n / 10));
        assert(n == (n / 10) * 10 + n % 10);
        assert(decimal(n)[0] == decimal(n / 10)[0]);
    }
}

/// A number is read exactly where there are digits and nothing else, but for a
/// leading plus sign, and it is below the bound; each digit counts ten times
/// what follows it counts.
pub proof fn law_numbers_are_read_in_base_ten(front: Seq<char>, d: char, bound: nat)
    ensures
        is_digit(d) ==> numeral_value(front.push(d)) == numeral_value(front) * 10 + (d as int
            - '0' as int),
        parsed_number(front, bound) matches Some(n) ==> n < bound,
        parsed_number(seq!['+'] + front, bound) == (if front.len() > 0 && front[0] == '+' {
            None
        } else {
            parsed_number(front, bound)
        }),
        parsed_number(Seq::empty(), bound) is None,
        !is_digit(d) ==> parsed_number(front.push(d), bound) is None,
{
    assert(front.push(d).drop_last() =~= front);
    assert((seq!['+'] + front).skip(1) =~= front);
    if front.len() > 0 && front[0] == '+' {
        assert(!is_digit(front[0]));
    }
    if !is_digit(d) {
        let s = front.push(d);
        let t = s.skip(1);
        assert(s.last() == d && s[s.len() - 1] == d);
        if t.len() > 0 {
            assert(t[t.len() - 1] == d);
        }
    }
}

/// Splitting takes the separators out and nothing else: joined by the separator
/// again, the pieces are the text; and no piece holds one.
pub proof fn law_split_and_join(s: Seq<char>, c: char)
    ensures
        split(s, c).len() > 0,
        join(split(s, c), seq![c]) == s,
        forall|k: int| 0 <= k < split(s, c).len() ==> !(#[trigger] split(s, c)[k]).contains(c),
    decreases s.len(),
{
    let sep = seq![c];
    let pieces = split(s, c);
    if s.len() == 0 {
        assert(pieces =~= seq![s]);
    } else {
        let t = s.drop_last();
        let front = split(t, c);
        law_split_and_join(t, c);
        if s.last() == c {
            assert(pieces =~= front.push(Seq::empty()));
            assert(pieces.drop_last() =~= front);
            assert(join(pieces, sep) =~= t + sep + Seq::<char>::empty());
            assert(t + sep =~= s);
        } else {
            let last = front.last().push(s.last());
            assert(pieces =~= front.drop_last().push(last));
            assert(pieces.drop_last() =~= front.drop_last());
            if front.len() == 1 {
                assert(join(pieces, sep) =~= last);
                assert(front.last() == t);
            } else {
                assert(join(front, sep) == join(front.drop_last(), sep) + sep + front.last());
                assert(join(pieces, sep) == join(front.drop_last(), sep) + sep + last);
            }
            assert(s =~= t.push(s.last()));
            assert(join(pieces, sep) =~= join(front, sep).push(s.last()));
            assert forall|k: int| 0 <= k < pieces.len() implies !(#[trigger] pieces[k]).contains(
                c,
            ) by {
                if k < front.len() - 1 {
                    assert(pieces[k] == front[k]);
                } else {
                    assert(pieces[k] == last);
                    assert(!front[front.len() - 1].contains(c));
                    if last.contains(c) {
                        let i = choose|i: int| 0 <= i < last.len() && last[i] == c;
                        assert(front.last()[i] == c);
                    }
                }
            }
        }
    }
}

/// A text is cut at the first separator: what stands before it holds none, and
/// with the separator between them the two parts are the text.
pub proof fn law_cut_is_at_the_first(s: Seq<char>, sep: Seq<char>)
    ensures
        match split_once(s, sep) {
            Some((before, after)) => s == before + sep + after && forall|i: int|
                0 <= i < before.len() ==> !#[trigger] occurs_at(s, sep, i),
            None => !contains(s, sep),
        },
{
    lemma_find_some(s, sep, 0);
    match find_from(s, sep, 0) {
        Some(i) => {
            let (before, after) = split_once(s, sep)->0;
            assert(s.subrange(i, i + sep.len()) == sep);
            assert(s =~= before + s.subrange(i, i + sep.len()) + after);
        },
        None => {
            lemma_find_none(s, sep, 0);
        },
    }
}

/// Lines are read one after the other: a line with its line feed before a text
/// is the first line of it, without a carriage return at its end.
pub proof fn law_lines_are_read_one_by_one(line: Seq<char>, rest: Seq<char>)
    requires
        !line.contains('\n'),
    ensures
        lines(line + seq!['\n'] + rest) == seq![
            if line.len() > 0 && line.last() == '\r' {
                line.drop_last()
            } else {
                line
            },
        ] + lines(rest),
        line.len() > 0 ==> lines(line) == seq![line],
        lines(Seq::empty()) == Seq::<Seq<char>>::empty(),
{
    let s = line + seq!['\n'] + rest;
    let nl = seq!['\n'];
    let n = line.len() as int;
    assert(s.subrange(n, n + 1) =~= nl);
    assert(occurs_at(s, nl, n));
    lemma_find_some(s, nl, 0);
    if find_from(s, nl, 0) is None {
        lemma_find_none(s, nl, 0);
    }
    let i = find_from(s, nl, 0)->0;
    assert(s.subrange(i, i + 1)[0] == '\n');
    assert(s[i] == '\n');
    if i < n {
        assert(line[i] == '\n');
    }
    assert(i == n);
    assert(s.take(n) =~= line);
    assert(s.skip(n + 1) =~= rest);
    lemma_find_some(line, nl, 0);
    if let Some(k) = find_from(line, nl, 0) {
        assert(line.subrange(k, k + 1)[0] == '\n');
        assert(line[k] == '\n');
    }
}

/// Splitting goes piece by piece: a piece and a separator before a text are the
/// first piece of it.
pub proof fn law_split_goes_piece_by_piece(piece: Seq<char>, rest: Seq<char>, c: char)
    requires
        !piece.contains(c),
    ensures
        split(piece, c) == seq![piece],
        split(piece + seq![c] + rest, c) == seq![piece] + split(rest, c),
{
    let cut = is_char(c);
    assert forall|i: int| 0 <= i < piece.len() implies !cut(#[trigger] piece[i]) by {
        assert(piece.contains(piece[i]));
    }
    lemma_split_by_piece(piece, c, rest, cut);
}

/// Leading digits are read as far as they go, and the last run of digits is the
/// one that a text ends in.
pub proof fn law_digit_runs(digits: Seq<char>, other: Seq<char>)
    requires
        all_digits(digits),
    ensures
        other.len() == 0 || !is_digit(other[0]) ==> leading_digits(digits + other) == digits,
        other.len() == 0 || !is_digit(other.last()) ==> digits.len() == 0 || last_digit_run(
            other + digits,
        ) == digits,
{
    let drop = digit_char_of();
    let s = digits + other;
    if other.len() == 0 || !is_digit(other[0]) {
        let n = lemma_trim_start(s, drop);
        if n < digits.len() {
            assert(drop(s[n]) == is_digit(digits[n]));
        }
        if n > digits.len() {
            assert(drop(s[digits.len() as int]));
            assert(s[digits.len() as int] == other[0]);
        }
        assert(n == digits.len());
        assert(leading_digits(s) =~= digits);
    }
    if digits.len() > 0 && (other.len() == 0 || !is_digit(other.last())) {
        let t = other + digits;
        let keep = other_char_of();
        let m = lemma_trim_end(t, keep);
        if m < t.len() {
            assert(t[t.len() - 1] == digits[digits.len() - 1]);
            assert(keep(t[t.len() - 1]));
            assert(is_digit(digits[digits.len() - 1]));
        }
        assert(t.take(m) =~= t);
        let k = lemma_trim_end(t, drop);
        if k > other.len() {
            assert(t[k - 1] == digits[k - 1 - other.len()]);
            assert(is_digit(digits[k - 1 - other.len()]));
        }
        if k < other.len() {
            assert(drop(t[other.len() - 1]));
            assert(t[other.len() - 1] == other.last());
        }
        assert(last_digit_run(t) =~= digits);
    }
}

/// A text begins with what was put in front of it and ends with what was put
/// behind it, holds both, and begins with nothing that differs from it.
pub proof fn law_beginnings_and_ends(a: Seq<char>, b: Seq<char>, other: Seq<char>, i: int)
    ensures
        starts_with(a + b, a),
        ends_with(a + b, b),
        contains(a + b, a) && contains(a + b, b),
        0 <= i < other.len() && (i >= a.len() || a[i] != other[i]) ==> !starts_with(a, other),
        0 < i <= other.len() && (i > a.len() || a[a.len() - i] != other[other.len() - i])
            ==> !ends_with(a, other),
{
    let s = a + b;
    assert(s.take(a.len() as int) =~= a);
    assert(s.skip(s.len() - b.len()) =~= b);
    assert(s.subrange(0, a.len() as int) =~= a);
    assert(occurs_at(s, a, 0));
    assert(s.subrange(a.len() as int, s.len() as int) =~= b);
    assert(occurs_at(s, b, a.len() as int));
    if starts_with(a, other) && 0 <= i < other.len() {
        assert(a.take(other.len() as int)[i] == a[i]);
    }
    if ends_with(a, other) && 0 < i <= other.len() {
        assert(a.skip(a.len() - other.len())[other.len() - i] == a[a.len() - i]);
    }
}

/// Tabs, line ends and blanks are white space; what is visible in ASCII is not.
pub proof fn law_visible_characters_are_no_space(c: char)
    ensures
        c == '\t' || c == '\n' || c == '\r' || c == ' ' ==> is_space(c),
        '!' <= c <= '~' ==> !is_space(c),
        is_digit(c) <==> '0' <= c <= '9',
{
}

proof fn lemma_split_by_piece(
    piece: Seq<char>,
    c: char,
    rest: Seq<char>,
    cut: spec_fn(char) -> bool,
)
    requires
        forall|i: int| 0 <= i < piece.len() ==> !cut(#[trigger] piece[i]),
        cut(c),
    ensures
        split_by(piece, cut) == seq![piece],
        split_by(rest, cut).len() > 0,
        split_by(piece + seq![c] + rest, cut) == seq![piece] + split_by(rest, cut),
    decreases piece.len(), rest.len(),
{
    let whole = piece + seq![c] + rest;
    if rest.len() == 0 {
        if piece.len() == 0 {
            assert(split_by(piece, cut) =~= seq![piece]);
        } else {
            let front = piece.drop_last();
            assert(piece.last() == piece[piece.len() - 1]);
            assert forall|i: int| 0 <= i < front.len() implies !cut(#[trigger] front[i]) by {
                assert(front[i] == piece[i]);
            }
            lemma_split_by_piece(front, c, rest, cut);
            assert(seq![front].last() == front);
            assert(seq![front].drop_last() =~= Seq::<Seq<char>>::empty());
            assert(front.push(piece.last()) =~= piece);
            assert(split_by(piece, cut) =~= seq![piece]);
        }
        assert(whole.drop_last() =~= piece);
        assert(whole.last() == c);
        assert(split_by(rest, cut) =~= seq![rest]);
        assert(rest =~= Seq::<char>::empty());
        assert(split_by(whole, cut) =~= seq![piece] + split_by(rest, cut));
    } else {
        let before = rest.drop_last();
        lemma_split_by_piece(piece, c, before, cut);
        assert(whole.drop_last() =~= piece + seq![c] + before);
        assert(whole.last() == rest.last());
        let b = split_by(before, cut);
        let s = seq![piece] + b;
        assert(s.last() == b.last());
        assert(s.drop_last() =~= seq![piece] + b.drop_last());
        assert(split_by(whole, cut) =~= seq![piece] + split_by(rest, cut));
    }
}

/// Words are read one after the other: a word before white space is the first
/// word of a text, and white space alone adds none.
pub proof fn law_words_are_read_one_by_one(word: Seq<char>, space: char, rest: Seq<char>)
    requires
        is_space(space),
        forall|i: int| 0 <= i < word.len() ==> !is_space(#[trigger] word[i]),
    ensures
        word.len() > 0 ==> words(word + seq![space] + rest) == seq![word] + words(rest),
        word.len() > 0 ==> words(word) == seq![word],
        words(seq![space] + rest) == words(rest),
        words(Seq::empty()).len() == 0,
{
    let cut = space_char();
    let keep = is_filled();
    let none = Seq::<char>::empty();
    lemma_split_by_piece(word, space, rest, cut);
    lemma_split_by_piece(none, space, rest, cut);
    assert(none + seq![space] + rest =~= seq![space] + rest);
    let pieces = split_by(rest, cut);
    lemma_filter_first(word, pieces);
    lemma_filter_first(none, pieces);
    lemma_filter_first(word, Seq::empty());
    lemma_filter_first(none, Seq::empty());
    assert(seq![word] + Seq::<Seq<char>>::empty() =~= seq![word]);
    assert(seq![none] + Seq::<Seq<char>>::empty() =~= seq![none]);
    reveal(Seq::filter);
    assert(Seq::<Seq<char>>::empty().filter(keep) =~= Seq::<Seq<char>>::empty());
    if word.len() > 0 {
        assert(words(word) =~= seq![word]);
    }
    assert(split_by(none, cut) =~= seq![none]);
}

proof fn lemma_filter_first(piece: Seq<char>, rest: Seq<Seq<char>>)
    ensures
        (seq![piece] + rest).filter(is_filled()) == (if piece.len() > 0 {
            seq![piece] + rest.filter(is_filled())
        } else {
            rest.filter(is_filled())
        }),
{
    reveal(Seq::filter);
    let keep = is_filled();
    let one = seq![piece];
    let none = Seq::<Seq<char>>::empty();
    Seq::filter_distributes_over_add(one, rest, keep);
    assert(one.drop_last() =~= none);
    assert(one.last() == piece);
    assert(none.filter(keep) =~= none);
    assert(one.filter(keep) =~= (if piece.len() > 0 {
        one
    } else {
        none
    }));
    assert(none + rest.filter(keep) =~= rest.filter(keep));
}

} // verus!
