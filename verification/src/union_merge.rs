//! Union merge of conflicted files: keep what every side has.

use vstd::prelude::*;

verus! {

/// The terms of a conflict: positive and negative ones in turn, starting and
/// ending with a positive one.
pub open spec fn term_views(terms: Seq<Vec<u8>>) -> Seq<Seq<u8>> {
    terms.map_values(|t: Vec<u8>| t@)
}

/// The terms of a list of hunks.
pub open spec fn hunk_views(hunks: Seq<Vec<Vec<u8>>>) -> Seq<Seq<Seq<u8>>> {
    hunks.map_values(|h: Vec<Vec<u8>>| term_views(h@))
}

/// The ids of a conflict's terms; a term that is no file has none.
pub open spec fn id_views(ids: Seq<Option<Vec<u8>>>) -> Seq<Option<Seq<u8>>> {
    ids.map_values(
        |id: Option<Vec<u8>>|
            match id {
                Some(bytes) => Some(bytes@),
                None => None,
            },
    )
}

/// What simplifying a conflict leaves of its terms.
pub uninterp spec fn simplified_terms(ids: Seq<Option<Seq<u8>>>) -> Seq<Option<Seq<u8>>>;

/// What merging the terms of a conflict hunk by hunk gives: a resolved hunk has
/// one term, a conflicted one has several.
pub uninterp spec fn merged_hunks(
    terms: Seq<Seq<u8>>,
    by_word: bool,
    accept_same_change: bool,
) -> Seq<Seq<Seq<u8>>>;

/// An odd number of terms, none of the positive ones equal to a negative one.
pub open spec fn is_simple(terms: Seq<Option<Vec<u8>>>) -> bool {
    &&& terms.len() % 2 == 1
    &&& forall|i: int, j: int|
        0 <= i < terms.len() && 0 <= j < terms.len() && i % 2 == 0 && j % 2 == 1
            ==> #[trigger] id_views(terms)[i] != #[trigger] id_views(terms)[j]
}

/// `jj_lib::merge::Merge::simplify` on the terms of a conflict. The result is a
/// function of the terms; it has an odd number of terms again, at most as many
/// as before, and no positive term equals a negative one, since such pairs are
/// what simplifying removes. An even number of terms is no conflict, and the
/// crate refuses it by a panic.
#[verifier::external_body]
fn simplify(ids: &Vec<Option<Vec<u8>>>) -> (res: Vec<Option<Vec<u8>>>)
    requires
        ids@.len() % 2 == 1,
    ensures
        id_views(res@) == simplified_terms(id_views(ids@)),
        res@.len() <= ids@.len(),
        is_simple(res@),
{
    jj_lib::merge::Merge::from_vec(ids.clone()).simplify().iter().cloned().collect()
}

/// `jj_lib::files::merge_hunks` on the contents of a conflict's terms, with
/// hunks of lines or words, and with or without accepting a change that all
/// sides make. The result is a function of the arguments; a content that could
/// be merged whole is one resolved hunk. An even number of terms is no
/// conflict, and the crate refuses it by a panic.
#[verifier::external_body]
fn merge_hunks(terms: &Vec<Vec<u8>>, by_word: bool, accept_same_change: bool) -> (res: Vec<
    Vec<Vec<u8>>,
>)
    requires
        terms@.len() % 2 == 1,
    ensures
        hunk_views(res@) == merged_hunks(term_views(terms@), by_word, accept_same_change),
{
    let hunk_level = match by_word {
        true => jj_lib::files::FileMergeHunkLevel::Word,
        false => jj_lib::files::FileMergeHunkLevel::Line,
    };
    let same_change = match accept_same_change {
        true => jj_lib::merge::SameChange::Accept,
        false => jj_lib::merge::SameChange::Keep,
    };
    let options = jj_lib::tree_merge::MergeOptions { hunk_level, same_change };
    match jj_lib::files::merge_hunks(&jj_lib::merge::Merge::from_vec(terms.clone()), &options) {
        jj_lib::files::MergeResult::Resolved(content) => vec![vec![content.into()]],
        jj_lib::files::MergeResult::Conflict(hunks) =>
            hunks.into_iter().map(|h| h.iter().map(|t| t.to_vec()).collect()).collect(),
    }
}

// ---------------------------------------------------------------------------
// Lines of bytes

/// The byte that ends a line.
pub open spec fn is_line_end(b: u8) -> bool {
    b == 10
}

/// ASCII white space.
pub open spec fn is_blank_byte(b: u8) -> bool {
    b == 9 || b == 10 || b == 12 || b == 13 || b == 32
}

/// A line of white space alone.
pub open spec fn is_blank(line: Seq<u8>) -> bool {
    forall|i: int| 0 <= i < line.len() ==> is_blank_byte(#[trigger] line[i])
}

/// The lines of some bytes, each with its line end; the last may have none.
pub open spec fn byte_lines(s: Seq<u8>) -> Seq<Seq<u8>>
    decreases s.len(),
{
    if s.len() == 0 {
        Seq::empty()
    } else {
        let front = byte_lines(s.drop_last());
        if front.len() == 0 || is_line_end(front.last().last()) {
            front.push(seq![s.last()])
        } else {
            front.drop_last().push(front.last().push(s.last()))
        }
    }
}

/// Lines one after another.
pub open spec fn joined_lines(lines: Seq<Seq<u8>>) -> Seq<u8>
    decreases lines.len(),
{
    if lines.len() == 0 {
        Seq::empty()
    } else {
        joined_lines(lines.drop_last()) + lines.last()
    }
}

/// Some bytes with a line end; none is added to nothing.
pub open spec fn ended(s: Seq<u8>) -> Seq<u8> {
    if s.len() == 0 || is_line_end(s.last()) {
        s
    } else {
        s.push(10u8)
    }
}

/// Lines below each other: one that lacks its line end gets it where another
/// line follows.
pub open spec fn laid_lines(lines: Seq<Seq<u8>>) -> Seq<u8>
    decreases lines.len(),
{
    if lines.len() == 0 {
        Seq::empty()
    } else {
        ended(laid_lines(lines.drop_last())) + lines.last()
    }
}

/// Lines of which each but the last has its line end.
pub open spec fn ended_lines(lines: Seq<Seq<u8>>) -> Seq<Seq<u8>> {
    Seq::new(
        lines.len(),
        |i: int|
            if i < lines.len() - 1 {
                ended(lines[i])
            } else {
                lines[i]
            },
    )
}

/// Nothing, or whole lines.
pub open spec fn is_whole(s: Seq<u8>) -> bool {
    s.len() == 0 || is_line_end(s.last())
}

/// The bytes occur somewhere in the content.
pub open spec fn appears_in(content: Seq<u8>, bytes: Seq<u8>) -> bool {
    exists|k: int| #[trigger] appears_at(content, bytes, k)
}

/// The bytes occur in the content from position `k` on.
pub open spec fn appears_at(content: Seq<u8>, bytes: Seq<u8>, k: int) -> bool {
    0 <= k <= content.len() - bytes.len() && content.subrange(k, k + bytes.len()) == bytes
}

/// A line occurs in one of the sides.
pub open spec fn occurs_in(sides: Seq<Seq<u8>>, line: Seq<u8>) -> bool {
    exists|i: int| 0 <= i < sides.len() && #[trigger] byte_lines(sides[i]).contains(line)
}

/// Being blank, or in none of the sides before.
pub open spec fn is_new(prior: Seq<Seq<u8>>) -> spec_fn(Seq<u8>) -> bool {
    |line: Seq<u8>| is_blank(line) || !occurs_in(prior, line)
}

/// The lines that a side adds to those of the sides before it.
pub open spec fn added_lines(prior: Seq<Seq<u8>>, side: Seq<u8>) -> Seq<Seq<u8>> {
    byte_lines(side).filter(is_new(prior))
}

/// The lines of all sides: each side's in order, without those that an earlier
/// side has already; blank lines always pass.
pub open spec fn union_lines(sides: Seq<Seq<u8>>) -> Seq<Seq<u8>>
    decreases sides.len(),
{
    if sides.len() == 0 {
        Seq::empty()
    } else {
        union_lines(sides.drop_last()) + added_lines(sides.drop_last(), sides.last())
    }
}

/// The positive terms of a conflict.
pub open spec fn positive_terms(terms: Seq<Seq<u8>>) -> Seq<Seq<u8>>
    decreases terms.len(),
{
    if terms.len() == 0 {
        Seq::empty()
    } else if terms.len() % 2 == 1 {
        positive_terms(terms.drop_last()).push(terms.last())
    } else {
        positive_terms(terms.drop_last())
    }
}

/// What a hunk becomes: its content where it is resolved, else the lines of all
/// its sides.
pub open spec fn hunk_content(hunk: Seq<Seq<u8>>) -> Seq<u8> {
    if hunk.len() == 1 {
        hunk[0]
    } else {
        laid_lines(union_lines(positive_terms(hunk)))
    }
}

/// What a list of hunks becomes.
pub open spec fn hunks_content(hunks: Seq<Seq<Seq<u8>>>) -> Seq<u8>
    decreases hunks.len(),
{
    if hunks.len() == 0 {
        Seq::empty()
    } else {
        hunks_content(hunks.drop_last()) + hunk_content(hunks.last())
    }
}

/// Every line but possibly the last ends in a line end, and none is empty.
pub open spec fn are_lines(lines: Seq<Seq<u8>>) -> bool {
    &&& forall|i: int| 0 <= i < lines.len() ==> (#[trigger] lines[i]).len() > 0
    &&& forall|i: int| 0 <= i < lines.len() - 1 ==> is_line_end((#[trigger] lines[i]).last())
}

proof fn lemma_byte_lines(s: Seq<u8>)
    ensures
        joined_lines(byte_lines(s)) == s,
        are_lines(byte_lines(s)),
    decreases s.len(),
{
    if s.len() > 0 {
        let rest = s.drop_last();
        lemma_byte_lines(rest);
        let front = byte_lines(rest);
        let lines = byte_lines(s);
        if front.len() == 0 || is_line_end(front.last().last()) {
            assert(lines.drop_last() =~= front);
            assert(rest + seq![s.last()] =~= s);
        } else {
            assert(lines.drop_last() =~= front.drop_last());
            assert(joined_lines(front) == joined_lines(front.drop_last()) + front.last());
            assert(joined_lines(front.drop_last()) + front.last().push(s.last()) =~= rest.push(
                s.last(),
            ));
            assert(rest.push(s.last()) =~= s);
        }
    }
}

/// The lines of some bytes make up exactly these bytes.
pub proof fn law_lines_lose_nothing(s: Seq<u8>)
    ensures
        joined_lines(byte_lines(s)) == s,
{
    lemma_byte_lines(s);
}

// ---------------------------------------------------------------------------
// What the union keeps

proof fn lemma_union_contains(sides: Seq<Seq<u8>>, line: Seq<u8>)
    ensures
        union_lines(sides).contains(line) <==> occurs_in(sides, line),
    decreases sides.len(),
{
    if sides.len() == 0 {
        if occurs_in(sides, line) {
            let i = choose|i: int| 0 <= i < sides.len() && #[trigger] byte_lines(
                sides[i],
            ).contains(line);
        }
    } else {
        let prior = sides.drop_last();
        let side = sides.last();
        let old = union_lines(prior);
        let added = added_lines(prior, side);
        let keep = is_new(prior);
        lemma_union_contains(prior, line);
        if old.contains(line) {
            let k = choose|k: int| 0 <= k < old.len() && old[k] == line;
            assert((old + added)[k] == line);
        }
        if occurs_in(prior, line) {
            let i = choose|i: int| 0 <= i < prior.len() && #[trigger] byte_lines(
                prior[i],
            ).contains(line);
            assert(byte_lines(sides[i]).contains(line));
        }
        if occurs_in(sides, line) && !occurs_in(prior, line) {
            let i = choose|i: int| 0 <= i < sides.len() && #[trigger] byte_lines(
                sides[i],
            ).contains(line);
            if i < prior.len() {
                assert(byte_lines(prior[i]).contains(line));
            }
            let lines = byte_lines(side);
            let k = choose|k: int| 0 <= k < lines.len() && lines[k] == line;
            lines.lemma_filter_contains(keep, k);
            let m = choose|m: int| 0 <= m < added.len() && added[m] == line;
            assert((old + added)[old.len() + m] == line);
        }
        if union_lines(sides).contains(line) {
            let k = choose|k: int| 0 <= k < (old + added).len() && (old + added)[k] == line;
            if k < old.len() {
                assert(old.contains(line));
            } else {
                assert(added[k - old.len()] == line);
                assert(added.contains(line));
                byte_lines(side).lemma_filter_contains_rev(keep, line);
                assert(byte_lines(sides[sides.len() - 1]).contains(line));
            }
        }
    }
}

/// A line survives if, and only if, some side has it.
pub proof fn law_union_keeps_every_line(sides: Seq<Seq<u8>>, line: Seq<u8>)
    ensures
        union_lines(sides).contains(line) <==> occurs_in(sides, line),
{
    lemma_union_contains(sides, line);
}

/// A line that is not blank is taken from the first side that has it, and from
/// no later one.
pub proof fn law_union_takes_a_line_once(sides: Seq<Seq<u8>>, i: int, j: int, line: Seq<u8>)
    requires
        0 <= i < j < sides.len(),
        byte_lines(sides[i]).contains(line),
        !is_blank(line),
    ensures
        !added_lines(sides.take(j), sides[j]).contains(line),
{
    let prior = sides.take(j);
    let lines = byte_lines(sides[j]);
    assert(byte_lines(prior[i]).contains(line));
    assert(occurs_in(prior, line));
    if added_lines(prior, sides[j]).contains(line) {
        let k = choose|k: int| 0 <= k < added_lines(prior, sides[j]).len() && added_lines(
            prior,
            sides[j],
        )[k] == line;
        lines.lemma_filter_pred(is_new(prior), k);
    }
}

proof fn lemma_union_of_lines(sides: Seq<Seq<u8>>)
    ensures
        forall|i: int| 0 <= i < union_lines(sides).len() ==> is_line(#[trigger] union_lines(sides)[i]),
{
    let lines = union_lines(sides);
    assert forall|i: int| 0 <= i < lines.len() implies is_line(#[trigger] lines[i]) by {
        assert(lines.contains(lines[i]));
        lemma_union_contains(sides, lines[i]);
        let k = choose|k: int| 0 <= k < sides.len() && #[trigger] byte_lines(sides[k]).contains(
            lines[i],
        );
        lemma_lines_are_lines(sides[k]);
    }
}

/// All sides are made of whole lines.
pub open spec fn all_whole(sides: Seq<Seq<u8>>) -> bool {
    forall|i: int| 0 <= i < sides.len() ==> is_whole(#[trigger] sides[i])
}

proof fn lemma_whole_lines(sides: Seq<Seq<u8>>)
    requires
        all_whole(sides),
    ensures
        forall|i: int|
            0 <= i < union_lines(sides).len() ==> is_line_end(
                (#[trigger] union_lines(sides)[i]).last(),
            ),
{
    let lines = union_lines(sides);
    assert forall|i: int| 0 <= i < lines.len() implies is_line_end((#[trigger] lines[i]).last()) by {
        assert(lines.contains(lines[i]));
        lemma_union_contains(sides, lines[i]);
        let k = choose|k: int| 0 <= k < sides.len() && #[trigger] byte_lines(sides[k]).contains(
            lines[i],
        );
        let of_side = byte_lines(sides[k]);
        let m = choose|m: int| 0 <= m < of_side.len() && of_side[m] == lines[i];
        lemma_byte_lines(sides[k]);
        lemma_last_line(sides[k]);
        assert(is_whole(sides[k]));
    }
}

/// What a conflicted hunk becomes is read back as the union of its sides'
/// lines; one that lacked its line end has it, unless it is the last. Where the
/// sides are made of whole lines, the lines read back are exactly the union.
pub proof fn law_union_reads_back(hunk: Seq<Seq<u8>>)
    requires
        hunk.len() != 1,
    ensures
        byte_lines(hunk_content(hunk)) == ended_lines(union_lines(positive_terms(hunk))),
        all_whole(positive_terms(hunk)) ==> byte_lines(hunk_content(hunk)) == union_lines(
            positive_terms(hunk),
        ) && is_whole(hunk_content(hunk)),
{
    let sides = positive_terms(hunk);
    let lines = union_lines(sides);
    lemma_union_of_lines(sides);
    lemma_laid_lines(lines);
    if all_whole(sides) {
        lemma_whole_lines(sides);
        assert(ended_lines(lines) =~= lines);
        lemma_last_line(hunk_content(hunk));
    }
}

/// Some hunk of the list is conflicted and has a side with this line.
pub open spec fn has_conflicted_line(hunks: Seq<Seq<Seq<u8>>>, line: Seq<u8>) -> bool {
    exists|k: int|
        0 <= k < hunks.len() && hunks[k].len() != 1 && #[trigger] occurs_in(
            positive_terms(hunks[k]),
            line,
        )
}

proof fn lemma_laid_line_appears(lines: Seq<Seq<u8>>, i: int)
    requires
        0 <= i < lines.len(),
    ensures
        appears_in(laid_lines(lines), lines[i]),
    decreases lines.len(),
{
    let front = lines.drop_last();
    let head = ended(laid_lines(front));
    if i == lines.len() - 1 {
        lemma_appears_in_two(head, lines.last(), lines[i]);
    } else {
        lemma_laid_line_appears(front, i);
        assert(front[i] == lines[i]);
        let laid = laid_lines(front);
        if head != laid {
            lemma_appears_in_two(laid, seq![10u8], lines[i]);
            assert(laid + seq![10u8] =~= head);
        }
        lemma_appears_in_two(head, lines.last(), lines[i]);
    }
}

proof fn lemma_appears_in_two(a: Seq<u8>, b: Seq<u8>, bytes: Seq<u8>)
    ensures
        appears_in(a, bytes) ==> appears_in(a + b, bytes),
        appears_in(b, bytes) ==> appears_in(a + b, bytes),
        appears_in(a + bytes, bytes),
{
    if appears_in(a, bytes) {
        let k = choose|k: int| #[trigger] appears_at(a, bytes, k);
        assert((a + b).subrange(k, k + bytes.len()) =~= a.subrange(k, k + bytes.len()));
        assert(appears_at(a + b, bytes, k));
    }
    if appears_in(b, bytes) {
        let k = choose|k: int| #[trigger] appears_at(b, bytes, k);
        let m = a.len() + k;
        assert((a + b).subrange(m, m + bytes.len()) =~= b.subrange(k, k + bytes.len()));
        assert(appears_at(a + b, bytes, m));
    }
    assert((a + bytes).subrange(a.len() as int, (a.len() + bytes.len()) as int) =~= bytes);
    assert(appears_at(a + bytes, bytes, a.len() as int));
}

/// Every line of every side of a conflicted hunk occurs in what the hunks
/// become.
pub proof fn law_merge_keeps_every_line(hunks: Seq<Seq<Seq<u8>>>, line: Seq<u8>)
    requires
        has_conflicted_line(hunks, line),
    ensures
        appears_in(hunks_content(hunks), line),
    decreases hunks.len(),
{
    let k = choose|k: int|
        0 <= k < hunks.len() && hunks[k].len() != 1 && #[trigger] occurs_in(
            positive_terms(hunks[k]),
            line,
        );
    let front = hunks.drop_last();
    let content = hunks_content(front);
    let last = hunk_content(hunks.last());
    if k < front.len() {
        assert(front[k] == hunks[k]);
        assert(has_conflicted_line(front, line));
        law_merge_keeps_every_line(front, line);
    } else {
        let lines = union_lines(positive_terms(hunks[k]));
        lemma_union_contains(positive_terms(hunks[k]), line);
        let i = choose|i: int| 0 <= i < lines.len() && lines[i] == line;
        lemma_laid_line_appears(lines, i);
    }
    lemma_appears_in_two(content, last, line);
}

/// All terms of all hunks are made of whole lines.
pub open spec fn hunks_whole(hunks: Seq<Seq<Seq<u8>>>) -> bool {
    forall|k: int| 0 <= k < hunks.len() ==> all_whole(#[trigger] hunks[k])
}

proof fn lemma_positive_whole(terms: Seq<Seq<u8>>)
    requires
        all_whole(terms),
    ensures
        all_whole(positive_terms(terms)),
    decreases terms.len(),
{
    if terms.len() > 0 {
        let front = terms.drop_last();
        assert(forall|i: int| 0 <= i < front.len() ==> front[i] == terms[i]);
        lemma_positive_whole(front);
        assert(is_whole(terms[terms.len() - 1]));
    }
}

/// Where all terms are made of whole lines, the lines of what the hunks become
/// are the lines of each hunk in turn, and so each line of a side of a
/// conflicted hunk is a line of the result.
pub proof fn law_whole_lines_stay_lines(hunks: Seq<Seq<Seq<u8>>>)
    requires
        hunks_whole(hunks),
    ensures
        is_whole(hunks_content(hunks)),
        hunks.len() > 0 ==> byte_lines(hunks_content(hunks)) == byte_lines(
            hunks_content(hunks.drop_last()),
        ) + byte_lines(hunk_content(hunks.last())),
        forall|line: Seq<u8>| #[trigger]
            has_conflicted_line(hunks, line) ==> byte_lines(hunks_content(hunks)).contains(line),
    decreases hunks.len(),
{
    if hunks.len() > 0 {
        let front = hunks.drop_last();
        let last = hunks.last();
        assert(forall|i: int| 0 <= i < front.len() ==> front[i] == hunks[i]);
        law_whole_lines_stay_lines(front);
        assert(all_whole(hunks[hunks.len() - 1]));
        lemma_positive_whole(last);
        if last.len() == 1 {
            assert(is_whole(last[0]));
        } else {
            law_union_reads_back(last);
        }
        lemma_lines_of_two(hunks_content(front), hunk_content(last));
        let a = byte_lines(hunks_content(front));
        let b = byte_lines(hunk_content(last));
        assert forall|line: Seq<u8>| #[trigger] has_conflicted_line(hunks, line) implies (a
            + b).contains(line) by {
            let k = choose|k: int|
                0 <= k < hunks.len() && hunks[k].len() != 1 && #[trigger] occurs_in(
                    positive_terms(hunks[k]),
                    line,
                );
            if k < front.len() {
                assert(occurs_in(positive_terms(front[k]), line));
                assert(has_conflicted_line(front, line));
                let i = choose|i: int| 0 <= i < a.len() && a[i] == line;
                assert((a + b)[i] == line);
            } else {
                lemma_union_contains(positive_terms(last), line);
                let i = choose|i: int| 0 <= i < b.len() && b[i] == line;
                assert((a + b)[a.len() + i] == line);
            }
        }
    }
}

/// The union of one side is that side.
pub proof fn law_union_of_one_side(side: Seq<u8>)
    ensures
        laid_lines(union_lines(seq![side])) == side,
{
    let sides = seq![side];
    let lines = byte_lines(side);
    assert(sides.drop_last() =~= Seq::<Seq<u8>>::empty());
    assert(sides.last() == side);
    let keep = is_new(sides.drop_last());
    assert forall|i: int| 0 <= i < lines.len() implies keep(#[trigger] lines[i]) by {
        if occurs_in(sides.drop_last(), lines[i]) {
            let k = choose|k: int| 0 <= k < sides.drop_last().len() && #[trigger] byte_lines(
                sides.drop_last()[k],
            ).contains(lines[i]);
        }
    }
    lemma_filter_keeps_all(lines, keep);
    assert(union_lines(sides.drop_last()) + lines =~= lines);
    lemma_byte_lines(side);
    lemma_laid_is_joined(lines);
}

/// Bytes that hold a line end at most at their end.
spec fn is_line(line: Seq<u8>) -> bool {
    line.len() > 0 && forall|i: int| 0 <= i < line.len() - 1 ==> !is_line_end(#[trigger] line[i])
}

/// Lines that all have their ends, but possibly the last, need none added.
proof fn lemma_laid_is_joined(lines: Seq<Seq<u8>>)
    requires
        are_lines(lines),
    ensures
        laid_lines(lines) == joined_lines(lines),
        lines.len() > 0 ==> laid_lines(lines).len() > 0 && laid_lines(lines).last()
            == lines.last().last(),
    decreases lines.len(),
{
    if lines.len() > 0 {
        let front = lines.drop_last();
        assert(forall|i: int| 0 <= i < front.len() ==> front[i] == lines[i]);
        lemma_laid_is_joined(front);
        if front.len() > 0 {
            assert(is_line_end(lines[lines.len() - 2].last()));
            assert(front.last() == lines[lines.len() - 2]);
        }
        assert(lines[lines.len() - 1].len() > 0);
    }
}

proof fn lemma_lines_are_lines(s: Seq<u8>)
    ensures
        forall|i: int| 0 <= i < byte_lines(s).len() ==> is_line(#[trigger] byte_lines(s)[i]),
    decreases s.len(),
{
    if s.len() > 0 {
        lemma_lines_are_lines(s.drop_last());
        let front = byte_lines(s.drop_last());
        if front.len() > 0 && !is_line_end(front.last().last()) {
            assert(is_line(front[front.len() - 1]));
        }
    }
}

/// Whole lines and what follows them are split apart.
proof fn lemma_lines_of_two(a: Seq<u8>, b: Seq<u8>)
    requires
        is_whole(a),
    ensures
        byte_lines(a + b) == byte_lines(a) + byte_lines(b),
    decreases b.len(),
{
    if b.len() == 0 {
        assert(a + b =~= a);
        assert(byte_lines(a) + byte_lines(b) =~= byte_lines(a));
    } else {
        let rest = b.drop_last();
        lemma_lines_of_two(a, rest);
        assert((a + b).drop_last() =~= a + rest);
        assert((a + b).last() == b.last());
        let first = byte_lines(a);
        let front = byte_lines(rest);
        lemma_last_line(a);
        lemma_byte_lines(a);
        if front.len() == 0 {
            if rest.len() > 0 {
                lemma_last_line(rest);
            }
            assert(first + front =~= first);
            assert(first.push(seq![b.last()]) =~= first + front.push(seq![b.last()]));
        } else {
            assert((first + front).last() == front.last());
            if is_line_end(front.last().last()) {
                assert((first + front).push(seq![b.last()]) =~= first + front.push(seq![b.last()]));
            } else {
                let last = front.last().push(b.last());
                assert((first + front).drop_last().push(last) =~= first + front.drop_last().push(
                    last,
                ));
            }
        }
    }
}

/// The last line ends as the bytes do.
proof fn lemma_last_line(s: Seq<u8>)
    ensures
        s.len() == 0 <==> byte_lines(s).len() == 0,
        s.len() > 0 ==> byte_lines(s).last().len() > 0 && byte_lines(s).last().last() == s.last(),
{
}

proof fn lemma_line_of_one(line: Seq<u8>)
    requires
        is_line(line),
    ensures
        byte_lines(line) == seq![line],
    decreases line.len(),
{
    let front = line.drop_last();
    if front.len() == 0 {
        assert(line =~= seq![line.last()]);
        assert(byte_lines(front) =~= Seq::<Seq<u8>>::empty());
        assert(byte_lines(line) =~= seq![line]);
    } else {
        assert(is_line(front));
        lemma_line_of_one(front);
        assert(front.last() == line[line.len() - 2]);
        assert(front.push(line.last()) =~= line);
        assert(byte_lines(line) =~= seq![line]);
    }
}

/// Lines below each other are read back as these lines.
proof fn lemma_laid_lines(lines: Seq<Seq<u8>>)
    requires
        forall|i: int| 0 <= i < lines.len() ==> is_line(#[trigger] lines[i]),
    ensures
        byte_lines(laid_lines(lines)) == ended_lines(lines),
    decreases lines.len(),
{
    if lines.len() > 0 {
        let front = lines.drop_last();
        let line = lines.last();
        assert(forall|i: int| 0 <= i < front.len() ==> front[i] == lines[i]);
        lemma_laid_lines(front);
        let laid = laid_lines(front);
        let read = byte_lines(laid);
        lemma_last_line(laid);
        assert(is_line(lines[lines.len() - 1]));
        lemma_line_of_one(line);
        lemma_lines_of_two(ended(laid), line);
        let all = Seq::new(front.len(), |i: int| ended(front[i]));
        assert(byte_lines(ended(laid)) =~= all) by {
            if front.len() > 0 {
                assert(read.last() == front.last());
                assert(front.last().last() == laid.last());
                if !is_line_end(laid.last()) {
                    assert(laid.push(10u8).drop_last() =~= laid);
                    assert(byte_lines(laid.push(10u8)) == read.drop_last().push(
                        read.last().push(10u8),
                    ));
                }
            }
        }
        assert(all + seq![line] =~= ended_lines(lines));
    }
}

proof fn lemma_filter_keeps_all(s: Seq<Seq<u8>>, keep: spec_fn(Seq<u8>) -> bool)
    requires
        forall|i: int| 0 <= i < s.len() ==> keep(#[trigger] s[i]),
    ensures
        s.filter(keep) == s,
    decreases s.len(),
{
    reveal(Seq::filter);
    if s.len() > 0 {
        lemma_filter_keeps_all(s.drop_last(), keep);
        assert(s.drop_last().push(s.last()) =~= s);
    }
}

// ---------------------------------------------------------------------------
// Merging

/// A structurally union-merged file: the resolved bytes, and how many sides the
/// conflict had.
#[derive(Debug, PartialEq, Eq)]
pub struct UnionFileMerge {
    /// The union-resolved file content.
    pub content: Vec<u8>,
    /// Number of conflict sides after simplification.
    pub sides: usize,
}

/// The lines of some bytes.
fn split_lines(bytes: &Vec<u8>) -> (res: Vec<Vec<u8>>)
    ensures
        term_views(res@) == byte_lines(bytes@),
{
    let mut out: Vec<Vec<u8>> = Vec::new();
    let mut i: usize = 0;
    let mut open = false;
    proof {
        assert(bytes@.take(0) =~= Seq::<u8>::empty());
        assert(term_views(out@) =~= Seq::<Seq<u8>>::empty());
    }
    while i < bytes.len()
        invariant
            i <= bytes@.len(),
            term_views(out@) == byte_lines(bytes@.take(i as int)),
            open == (out@.len() > 0 && !is_line_end(out@.last()@.last())),
            forall|k: int| 0 <= k < out@.len() ==> (#[trigger] out@[k])@.len() > 0,
        decreases bytes@.len() - i,
    {
        let b: u8 = bytes[i];
        let ghost before = out@;
        proof {
            assert(bytes@.take(i + 1).drop_last() == bytes@.take(i as int));
            assert(bytes@.take(i + 1).last() == b);
            assert(term_views(before).len() == before.len());
            if before.len() > 0 {
                assert(term_views(before).last() == before.last()@);
            }
        }
        if open {
            let n: usize = out.len();
            let line = &mut out[n - 1];
            line.push(b);
            proof {
                let next = before.last()@.push(b);
                assert(term_views(out@) =~= term_views(before).drop_last().push(next));
                assert(out@.last()@ == next);
            }
        } else {
            let mut line: Vec<u8> = Vec::new();
            line.push(b);
            out.push(line);
            proof {
                assert(out@.last()@ =~= seq![b]);
                assert(term_views(out@) =~= term_views(before).push(seq![b]));
            }
        }
        open = b != 10;
        i = i + 1;
    }
    assert(bytes@.take(i as int) == bytes@);
    out
}

fn line_is_blank(line: &Vec<u8>) -> (res: bool)
    ensures
        res == is_blank(line@),
{
    let mut i: usize = 0;
    while i < line.len()
        invariant
            i <= line@.len(),
            forall|k: int| 0 <= k < i ==> is_blank_byte(#[trigger] line@[k]),
        decreases line@.len() - i,
    {
        let b: u8 = line[i];
        if !(b == 9 || b == 10 || b == 12 || b == 13 || b == 32) {
            return false;
        }
        i = i + 1;
    }
    true
}

fn same_bytes(a: &Vec<u8>, b: &Vec<u8>) -> (res: bool)
    ensures
        res == (a@ == b@),
{
    if a.len() != b.len() {
        return false;
    }
    let mut i: usize = 0;
    while i < a.len()
        invariant
            i <= a@.len(),
            a@.len() == b@.len(),
            forall|k: int| 0 <= k < i ==> a@[k] == b@[k],
        decreases a@.len() - i,
    {
        if a[i] != b[i] {
            return false;
        }
        i = i + 1;
    }
    assert(a@ =~= b@);
    true
}

fn has_line(lines: &Vec<Vec<u8>>, line: &Vec<u8>) -> (res: bool)
    ensures
        res == term_views(lines@).contains(line@),
{
    let ghost all = term_views(lines@);
    let mut i: usize = 0;
    while i < lines.len()
        invariant
            i <= lines@.len(),
            all == term_views(lines@),
            forall|k: int| 0 <= k < i ==> #[trigger] all[k] != line@,
        decreases lines@.len() - i,
    {
        assert(all[i as int] == lines@[i as int]@);
        if same_bytes(&lines[i], line) {
            return true;
        }
        i = i + 1;
    }
    false
}

fn append_bytes(out: &mut Vec<u8>, bytes: &Vec<u8>)
    ensures
        final(out)@ == old(out)@ + bytes@,
{
    let ghost before = out@;
    let mut i: usize = 0;
    assert(before + bytes@.take(0) =~= before);
    while i < bytes.len()
        invariant
            i <= bytes@.len(),
            out@ == before + bytes@.take(i as int),
        decreases bytes@.len() - i,
    {
        out.push(bytes[i]);
        i = i + 1;
        assert(before + bytes@.take(i as int) =~= (before + bytes@.take(i - 1)).push(bytes@[i - 1]));
    }
    assert(bytes@.take(i as int) =~= bytes@);
}

/// The lines seen so far are those of the sides before.
spec fn seen_matches(seen: Seq<Seq<u8>>, prior: Seq<Seq<u8>>) -> bool {
    forall|line: Seq<u8>| #[trigger] seen.contains(line) <==> occurs_in(prior, line)
}

/// Append the union of every side's lines: in the order in which they are first
/// seen, each line that is not blank once even where several sides carry it.
/// Blank lines always pass, so that formatting survives. A line that lacks its
/// line end, as the last one of a file may, gets it where another line follows.
pub fn union_hunk_lines(merged: &mut Vec<u8>, sides: &Vec<Vec<u8>>)
    ensures
        final(merged)@ == old(merged)@ + laid_lines(union_lines(term_views(sides@))),
{
    let ghost start = merged@;
    let begin: usize = merged.len();
    let ghost all = term_views(sides@);
    let mut seen: Vec<Vec<u8>> = Vec::new();
    let mut i: usize = 0;
    proof {
        assert(all.take(0) =~= Seq::<Seq<u8>>::empty());
        assert(start + laid_lines(union_lines(all.take(0))) =~= start);
        assert(seen_matches(term_views(seen@), all.take(0))) by {
            assert forall|line: Seq<u8>| #[trigger] term_views(seen@).contains(line) <==> occurs_in(
                all.take(0),
                line,
            ) by {
                if occurs_in(all.take(0), line) {
                    let k = choose|k: int| 0 <= k < all.take(0).len() && #[trigger] byte_lines(
                        all.take(0)[k],
                    ).contains(line);
                }
            }
        }
    }
    while i < sides.len()
        invariant
            i <= sides@.len(),
            all == term_views(sides@),
            seen_matches(term_views(seen@), all.take(i as int)),
            begin == start.len(),
            merged@ == start + laid_lines(union_lines(all.take(i as int))),
        decreases sides@.len() - i,
    {
        let ghost prior = all.take(i as int);
        let ghost side = all[i as int];
        let ghost kept = union_lines(prior);
        let ghost keep = is_new(prior);
        let mut lines = split_lines(&sides[i]);
        let ghost texts = term_views(lines@);
        proof {
            assert(side == sides@[i as int]@);
            assert(texts == byte_lines(side));
            reveal(Seq::filter);
            assert(texts.take(0).filter(keep) =~= Seq::<Seq<u8>>::empty());
            assert(kept + Seq::<Seq<u8>>::empty() =~= kept);
        }
        let mut j: usize = 0;
        while j < lines.len()
            invariant
                j <= lines@.len(),
                texts == term_views(lines@),
                keep == is_new(prior),
                seen_matches(term_views(seen@), prior),
                begin == start.len(),
                merged@ == start + laid_lines(kept + texts.take(j as int).filter(keep)),
            decreases lines@.len() - j,
        {
            let line = &lines[j];
            let ghost added = texts.take(j as int).filter(keep);
            proof {
                reveal(Seq::filter);
                assert(texts.take(j + 1).drop_last() =~= texts.take(j as int));
                assert(texts.take(j + 1).last() == line@);
            }
            let known = has_line(&seen, line);
            if line_is_blank(line) || !known {
                let ghost laid = laid_lines(kept + added);
                assert(merged@ == start + laid);
                let length: usize = merged.len();
                if length > begin && merged[length - 1] != 10 {
                    assert(laid.last() == merged@.last());
                    merged.push(10);
                }
                assert(merged@ =~= start + ended(laid)) by {
                    if laid.len() > 0 {
                        assert((start + laid).last() == laid.last());
                    }
                }
                append_bytes(merged, line);
                proof {
                    let now = kept + added.push(line@);
                    assert(now.drop_last() =~= kept + added);
                    assert(now.last() == line@);
                    assert(start + ended(laid) + line@ =~= start + (ended(laid) + line@));
                }
            }
            j = j + 1;
        }
        proof {
            assert(texts.take(j as int) =~= texts);
            assert(all.take(i + 1).drop_last() =~= prior);
            assert(all.take(i + 1).last() == side);
        }
        let ghost old_seen = term_views(seen@);
        let ghost new_lines = lines@;
        seen.append(&mut lines);
        proof {
            assert(term_views(seen@) =~= old_seen + term_views(new_lines));
            lemma_seen_grows(old_seen, texts, prior, side);
            assert(all.take(i + 1) =~= prior.push(side));
        }
        i = i + 1;
    }
    assert(all.take(i as int) =~= all);
}

proof fn lemma_seen_grows(
    seen: Seq<Seq<u8>>,
    lines: Seq<Seq<u8>>,
    prior: Seq<Seq<u8>>,
    side: Seq<u8>,
)
    requires
        seen_matches(seen, prior),
        lines == byte_lines(side),
    ensures
        seen_matches(seen + lines, prior.push(side)),
{
    let sides = prior.push(side);
    assert forall|line: Seq<u8>| #[trigger] (seen + lines).contains(line) <==> occurs_in(
        sides,
        line,
    ) by {
        if (seen + lines).contains(line) {
            let k = choose|k: int| 0 <= k < (seen + lines).len() && (seen + lines)[k] == line;
            if k < seen.len() {
                assert(seen.contains(line));
                let i = choose|i: int| 0 <= i < prior.len() && #[trigger] byte_lines(
                    prior[i],
                ).contains(line);
                assert(byte_lines(sides[i]).contains(line));
            } else {
                assert(lines[k - seen.len()] == line);
                assert(byte_lines(sides[prior.len() as int]).contains(line));
            }
        }
        if occurs_in(sides, line) {
            let i = choose|i: int| 0 <= i < sides.len() && #[trigger] byte_lines(
                sides[i],
            ).contains(line);
            if i < prior.len() {
                assert(byte_lines(prior[i]).contains(line));
                assert(seen.contains(line));
                let k = choose|k: int| 0 <= k < seen.len() && seen[k] == line;
                assert((seen + lines)[k] == line);
            } else {
                let k = choose|k: int| 0 <= k < lines.len() && lines[k] == line;
                assert((seen + lines)[seen.len() + k] == line);
            }
        }
    }
}

fn copy_bytes(bytes: &Vec<u8>) -> (res: Vec<u8>)
    ensures
        res@ == bytes@,
{
    let mut out: Vec<u8> = Vec::new();
    append_bytes(&mut out, bytes);
    assert(out@ =~= bytes@);
    out
}

/// The positive terms of a hunk.
fn adds_of(hunk: &Vec<Vec<u8>>) -> (res: Vec<Vec<u8>>)
    ensures
        term_views(res@) == positive_terms(term_views(hunk@)),
{
    let ghost all = term_views(hunk@);
    let mut out: Vec<Vec<u8>> = Vec::new();
    let mut i: usize = 0;
    proof {
        assert(all.take(0) =~= Seq::<Seq<u8>>::empty());
        assert(term_views(out@) =~= Seq::<Seq<u8>>::empty());
    }
    while i < hunk.len()
        invariant
            i <= hunk@.len(),
            all == term_views(hunk@),
            term_views(out@) == positive_terms(all.take(i as int)),
        decreases hunk@.len() - i,
    {
        let ghost before = out@;
        proof {
            assert(all.take(i + 1).drop_last() =~= all.take(i as int));
            assert(all.take(i + 1).last() == hunk@[i as int]@);
        }
        if i % 2 == 0 {
            out.push(copy_bytes(&hunk[i]));
            assert(term_views(out@) =~= term_views(before).push(hunk@[i as int]@));
        }
        i = i + 1;
    }
    assert(all.take(i as int) =~= all);
    out
}

/// The content that a list of hunks becomes.
pub fn union_hunks(hunks: &Vec<Vec<Vec<u8>>>) -> (res: Vec<u8>)
    ensures
        res@ == hunks_content(hunk_views(hunks@)),
{
    let ghost all = hunk_views(hunks@);
    let mut merged: Vec<u8> = Vec::new();
    let mut i: usize = 0;
    assert(all.take(0) =~= Seq::<Seq<Seq<u8>>>::empty());
    while i < hunks.len()
        invariant
            i <= hunks@.len(),
            all == hunk_views(hunks@),
            merged@ == hunks_content(all.take(i as int)),
        decreases hunks@.len() - i,
    {
        let hunk = &hunks[i];
        proof {
            assert(all.take(i + 1).drop_last() =~= all.take(i as int));
            assert(all.take(i + 1).last() == term_views(hunk@));
            assert(term_views(hunk@).len() == hunk@.len());
        }
        if hunk.len() == 1 {
            assert(term_views(hunk@)[0] == hunk@[0]@);
            append_bytes(&mut merged, &hunk[0]);
        } else {
            let adds = adds_of(hunk);
            union_hunk_lines(&mut merged, &adds);
        }
        i = i + 1;
    }
    assert(all.take(i as int) =~= all);
    merged
}

fn holds_zero(bytes: &Vec<u8>) -> (res: bool)
    ensures
        res == bytes@.contains(0u8),
{
    let mut i: usize = 0;
    while i < bytes.len()
        invariant
            i <= bytes@.len(),
            forall|k: int| 0 <= k < i ==> bytes@[k] != 0u8,
        decreases bytes@.len() - i,
    {
        if bytes[i] == 0 {
            assert(bytes@[i as int] == 0u8);
            return true;
        }
        i = i + 1;
    }
    false
}

/// Some term holds a zero byte.
pub open spec fn is_binary(terms: Seq<Seq<u8>>) -> bool {
    exists|i: int| 0 <= i < terms.len() && (#[trigger] terms[i]).contains(0u8)
}

fn any_binary(terms: &Vec<Vec<u8>>) -> (res: bool)
    ensures
        res == is_binary(term_views(terms@)),
{
    let ghost all = term_views(terms@);
    let mut i: usize = 0;
    while i < terms.len()
        invariant
            i <= terms@.len(),
            all == term_views(terms@),
            forall|k: int| 0 <= k < i ==> !(#[trigger] all[k]).contains(0u8),
        decreases terms@.len() - i,
    {
        assert(all[i as int] == terms@[i as int]@);
        if holds_zero(&terms[i]) {
            return true;
        }
        i = i + 1;
    }
    false
}

/// A term is no file.
pub open spec fn has_gap(ids: Seq<Option<Seq<u8>>>) -> bool {
    exists|i: int| 0 <= i < ids.len() && (#[trigger] ids[i]) is None
}

/// The files of a conflict whose simplified terms are given: `None` where a
/// side has no file, and then the conflict is not union material.
pub fn file_terms(ids: Vec<Option<Vec<u8>>>) -> (res: Option<Vec<Vec<u8>>>)
    ensures
        match res {
            None => has_gap(id_views(ids@)),
            Some(files) => !has_gap(id_views(ids@)) && files@.len() == ids@.len() && forall|i: int|
                0 <= i < files@.len() ==> id_views(ids@)[i] == Some((#[trigger] files@[i])@),
        },
{
    let ghost all = id_views(ids@);
    let mut out: Vec<Vec<u8>> = Vec::new();
    let mut i: usize = 0;
    while i < ids.len()
        invariant
            i <= ids@.len(),
            all == id_views(ids@),
            out@.len() == i,
            forall|k: int| 0 <= k < i ==> #[trigger] all[k] == Some(out@[k]@),
        decreases ids@.len() - i,
    {
        match &ids[i] {
            None => {
                assert(all[i as int] is None);
                return None;
            },
            Some(id) => {
                out.push(copy_bytes(id));
                assert(all[i as int] == Some(id@));
            },
        }
        i = i + 1;
    }
    proof {
        assert forall|k: int| 0 <= k < out@.len() implies all[k] == Some((#[trigger] out@[k])@) by {
            assert(all[k] == Some(out@[k]@));
        }
    }
    Some(out)
}

/// The files that a union merge of a conflict reads: the terms that simplifying
/// leaves, `None` where one of them is no file. Matching terms cancel out
/// first, since rebasing often leaves such pairs.
pub fn union_terms(ids: &Vec<Option<Vec<u8>>>) -> (res: Option<Vec<Vec<u8>>>)
    requires
        ids@.len() % 2 == 1,
    ensures
        match res {
            None => has_gap(simplified_terms(id_views(ids@))),
            Some(files) => files@.len() % 2 == 1 && !has_gap(simplified_terms(id_views(ids@)))
                && files@.len() == simplified_terms(id_views(ids@)).len() && forall|i: int|
                0 <= i < files@.len() ==> simplified_terms(id_views(ids@))[i] == Some(
                    (#[trigger] files@[i])@,
                ),
        },
{
    let simple = simplify(ids);
    assert(id_views(simple@).len() == simple@.len());
    file_terms(simple)
}

/// How many sides a conflict has once matching terms have cancelled out.
pub fn conflict_sides(ids: &Vec<Option<Vec<u8>>>) -> (res: usize)
    requires
        ids@.len() % 2 == 1,
    ensures
        res == (simplified_terms(id_views(ids@)).len() + 1) / 2,
{
    let simple = simplify(ids);
    assert(id_views(simple@).len() == simple@.len());
    let n: usize = simple.len();
    n / 2 + 1
}

/// Union-merge the contents of a conflict's terms: a hunk that can be merged is
/// merged, of a conflicted one the lines of every side are kept. `None` for
/// binary contents.
pub fn union_merge_file(
    contents: &Vec<Vec<u8>>,
    by_word: bool,
    accept_same_change: bool,
) -> (res: Option<UnionFileMerge>)
    requires
        contents@.len() % 2 == 1,
    ensures
        match res {
            None => is_binary(term_views(contents@)),
            Some(merge) => !is_binary(term_views(contents@)) && merge.sides == (contents@.len()
                + 1) / 2 && merge.content@ == hunks_content(
                merged_hunks(term_views(contents@), by_word, accept_same_change),
            ) && forall|line: Seq<u8>| #[trigger]
                has_conflicted_line(
                    merged_hunks(term_views(contents@), by_word, accept_same_change),
                    line,
                ) ==> appears_in(merge.content@, line),
        },
{
    if any_binary(contents) {
        return None;
    }
    let hunks = merge_hunks(contents, by_word, accept_same_change);
    let n: usize = contents.len();
    proof {
        let all = merged_hunks(term_views(contents@), by_word, accept_same_change);
        assert forall|line: Seq<u8>| #[trigger] has_conflicted_line(all, line) implies appears_in(
            hunks_content(all),
            line,
        ) by {
            law_merge_keeps_every_line(all, line);
        }
    }
    Some(UnionFileMerge { content: union_hunks(&hunks), sides: n / 2 + 1 })
}

/// The sides of a hunk are its terms at even positions, all of them and in
/// order: with `n` terms, `n` odd, there are `(n + 1) / 2`.
pub proof fn law_sides_stand_at_even_positions(terms: Seq<Seq<u8>>)
    ensures
        positive_terms(terms).len() == (terms.len() + 1) / 2,
        forall|k: int|
            0 <= k < positive_terms(terms).len() ==> #[trigger] positive_terms(terms)[k]
                == terms[2 * k],
    decreases terms.len(),
{
    if terms.len() > 0 {
        let front = terms.drop_last();
        law_sides_stand_at_even_positions(front);
        assert forall|k: int| 0 <= k < positive_terms(terms).len() implies #[trigger] positive_terms(
            terms,
        )[k] == terms[2 * k] by {
            if k < positive_terms(front).len() {
                assert(positive_terms(front)[k] == front[2 * k]);
            }
        }
    }
}

/// No side of a conflicted hunk is lost, whichever it is: a line of the term at
/// any even position occurs in what the hunks become.
pub proof fn law_no_side_is_lost(hunks: Seq<Seq<Seq<u8>>>, h: int, t: int, line: Seq<u8>)
    requires
        0 <= h < hunks.len(),
        hunks[h].len() > 1,
        0 <= t < hunks[h].len(),
        t % 2 == 0,
        byte_lines(hunks[h][t]).contains(line),
    ensures
        appears_in(hunks_content(hunks), line),
{
    let terms = hunks[h];
    let sides = positive_terms(terms);
    let k = t / 2;
    law_sides_stand_at_even_positions(terms);
    assert(sides[k] == terms[2 * k]);
    assert(byte_lines(sides[k]).contains(line));
    assert(occurs_in(positive_terms(hunks[h]), line));
    assert(has_conflicted_line(hunks, line));
    law_merge_keeps_every_line(hunks, line);
}

/// Nothing is made up: where a hunk is resolved, its one term is its content,
/// and every line of the union of a conflicted hunk comes from one of the terms
/// at even positions.
pub proof fn law_union_makes_nothing_up(hunk: Seq<Seq<u8>>, line: Seq<u8>)
    ensures
        hunk.len() == 1 ==> hunk_content(hunk) == hunk[0],
        hunk.len() > 1 && union_lines(positive_terms(hunk)).contains(line) ==> exists|t: int|
            0 <= t < hunk.len() && t % 2 == 0 && #[trigger] byte_lines(hunk[t]).contains(line),
{
    let sides = positive_terms(hunk);
    if hunk.len() > 1 && union_lines(sides).contains(line) {
        lemma_union_contains(sides, line);
        law_sides_stand_at_even_positions(hunk);
        let k = choose|k: int| 0 <= k < sides.len() && #[trigger] byte_lines(sides[k]).contains(
            line,
        );
        assert(sides[k] == hunk[2 * k]);
        assert(byte_lines(hunk[2 * k]).contains(line));
    }
}

/// A file is merged hunk by hunk: what a list of hunks becomes is what its parts
/// become, one after the other.
pub proof fn law_hunks_follow_each_other(some: Seq<Seq<Seq<u8>>>, more: Seq<Seq<Seq<u8>>>)
    ensures
        hunks_content(some + more) == hunks_content(some) + hunks_content(more),
        forall|h: Seq<Seq<u8>>| #[trigger] hunks_content(seq![h]) == hunk_content(h),
    decreases more.len(),
{
    if more.len() == 0 {
        assert(some + more =~= some);
        assert(hunks_content(some) + hunks_content(more) =~= hunks_content(some));
    } else {
        law_hunks_follow_each_other(some, more.drop_last());
        assert((some + more).drop_last() =~= some + more.drop_last());
        assert(hunks_content(some + more) =~= hunks_content(some) + hunks_content(more));
    }
    assert forall|h: Seq<Seq<u8>>| #[trigger] hunks_content(seq![h]) == hunk_content(h) by {
        reveal_with_fuel(hunks_content, 2);
        assert(seq![h].drop_last() =~= Seq::<Seq<Seq<u8>>>::empty());
        assert(hunks_content(seq![h]) =~= hunk_content(h));
    }
}

/// The lines of some bytes are where their line ends are: no line but possibly
/// the last lacks its end, and no line holds one before its end.
pub proof fn law_lines_end_at_line_ends(s: Seq<u8>)
    ensures
        forall|i: int|
            0 <= i < byte_lines(s).len() - 1 ==> (#[trigger] byte_lines(s)[i]).last() == 10u8,
        forall|i: int, k: int|
            0 <= i < byte_lines(s).len() && 0 <= k < byte_lines(s)[i].len() - 1
                ==> #[trigger] byte_lines(s)[i][k] != 10u8,
        forall|i: int| 0 <= i < byte_lines(s).len() ==> (#[trigger] byte_lines(s)[i]).len() > 0,
{
    lemma_byte_lines(s);
    lemma_lines_are_lines(s);
}

/// The sides of a union keep their order: the lines of earlier sides come
/// first, and what a side adds are its own lines in their order, without those
/// that are not blank and that an earlier side has.
pub proof fn law_union_keeps_the_order_of_sides(sides: Seq<Seq<u8>>, more: Seq<u8>)
    ensures
        ({
            let all = union_lines(sides.push(more));
            let first = union_lines(sides).len();
            &&& all.len() >= first
            &&& all.take(first as int) == union_lines(sides)
            &&& all.skip(first as int) == byte_lines(more).filter(
                |line: Seq<u8>|
                    (forall|i: int|
                        0 <= i < line.len() ==> (#[trigger] line[i] == 9u8 || line[i] == 10u8
                            || line[i] == 12u8 || line[i] == 13u8 || line[i] == 32u8)) || !(exists|
                        k: int,
                    |
                        0 <= k < sides.len() && #[trigger] byte_lines(sides[k]).contains(line)),
            )
        }),
{
    let all = union_lines(sides.push(more));
    assert(sides.push(more).drop_last() =~= sides);
    let first = union_lines(sides);
    let added = added_lines(sides, more);
    assert(all == first + added);
    assert(all.take(first.len() as int) =~= first);
    assert(all.skip(first.len() as int) =~= added);
    let keep = |line: Seq<u8>|
        (forall|i: int|
            0 <= i < line.len() ==> (#[trigger] line[i] == 9u8 || line[i] == 10u8 || line[i] == 12u8
                || line[i] == 13u8 || line[i] == 32u8)) || !(exists|k: int|
            0 <= k < sides.len() && #[trigger] byte_lines(sides[k]).contains(line));
    assert forall|line: Seq<u8>| #[trigger] keep(line) == is_new(sides)(line) by {
        if is_blank(line) {
            assert forall|i: int| 0 <= i < line.len() implies (#[trigger] line[i] == 9u8 || line[i]
                == 10u8 || line[i] == 12u8 || line[i] == 13u8 || line[i] == 32u8) by {
                assert(is_blank_byte(line[i]));
            }
        }
    }
    lemma_same_filter(byte_lines(more), keep, is_new(sides));
}

proof fn lemma_same_filter(
    s: Seq<Seq<u8>>,
    a: spec_fn(Seq<u8>) -> bool,
    b: spec_fn(Seq<u8>) -> bool,
)
    requires
        forall|line: Seq<u8>| #[trigger] a(line) == b(line),
    ensures
        s.filter(a) == s.filter(b),
    decreases s.len(),
{
    reveal(Seq::filter);
    if s.len() > 0 {
        lemma_same_filter(s.drop_last(), a, b);
    }
}

/// A conflict is merged only where every content is text and every side a file;
/// what is not is refused exactly then.
pub proof fn law_binary_and_gaps(contents: Seq<Seq<u8>>, ids: Seq<Option<Seq<u8>>>)
    ensures
        !is_binary(contents) <==> forall|i: int, k: int|
            0 <= i < contents.len() && 0 <= k < contents[i].len() ==> #[trigger] contents[i][k]
                != 0u8,
        !has_gap(ids) <==> forall|i: int| 0 <= i < ids.len() ==> (#[trigger] ids[i]) is Some,
{
    if !is_binary(contents) {
        assert forall|i: int, k: int|
            0 <= i < contents.len() && 0 <= k < contents[i].len() implies #[trigger] contents[i][k]
            != 0u8 by {
            assert(!contents[i].contains(0u8));
        }
    } else {
        let i = choose|i: int| 0 <= i < contents.len() && (#[trigger] contents[i]).contains(0u8);
        let k = choose|k: int| 0 <= k < contents[i].len() && contents[i][k] == 0u8;
        assert(contents[i][k] == 0u8);
    }
}

} // verus!
