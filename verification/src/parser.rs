//! The line format of variable files.
//!
//! A file is a sequence of lines. A line is trimmed and then read as one of
//! three things: nothing (it is blank, or a comment that starts with `#`), an
//! assignment `key=value` (split at the first `=`, both sides trimmed, the key
//! not empty), or neither, in which case it is passed over without an error.
//! The assignments are applied in order, so the last one for a key counts.
//! Nothing is quoted or escaped, and every value stays a string.

use crate::text::{
    chars_of, find_char, index_of, is_whitespace, join_lines, lemma_index_of,
    lemma_split_joined_lines, lemma_trim, lemma_trim_end, lemma_trim_start, split_lines,
    string_of_range, trim, trim_range, trim_start,
};
use crate::variables::Variables;
use vstd::prelude::*;

verus! {

/// What one line means, over the characters of its text.
pub enum LineOutcome {
    /// A blank line or a comment.
    Ignored,
    /// An assignment of `value` to `key`.
    Pair { key: Seq<char>, value: Seq<char> },
    /// A line without `=`, or with nothing before it.
    Malformed,
}

/// What one line means, as [`parse_line`] returns it.
#[derive(Debug, PartialEq, Eq)]
pub enum ParsedLine {
    /// A blank line or a comment.
    Ignored,
    /// An assignment of `value` to `key`.
    Pair { key: String, value: String },
    /// A line without `=`, or with nothing before it.
    Malformed,
}

impl View for ParsedLine {
    type V = LineOutcome;

    open spec fn view(&self) -> LineOutcome {
        match self {
            ParsedLine::Ignored => LineOutcome::Ignored,
            ParsedLine::Pair { key, value } => LineOutcome::Pair { key: key@, value: value@ },
            ParsedLine::Malformed => LineOutcome::Malformed,
        }
    }
}

/// The meaning of the line `line`.
pub open spec fn line_outcome(line: Seq<char>) -> LineOutcome {
    let t = trim(line);
    let eq = index_of(t, '=');
    if t.len() == 0 || t[0] == '#' {
        LineOutcome::Ignored
    } else if !(0 <= eq < t.len()) {
        LineOutcome::Malformed
    } else {
        let key = trim(t.take(eq));
        let value = trim(t.skip(eq + 1));
        if key.len() == 0 {
            LineOutcome::Malformed
        } else {
            LineOutcome::Pair { key, value }
        }
    }
}

/// The mapping `vars` after the line `line`: an assignment sets its key, any
/// other line changes nothing.
pub open spec fn apply_line(vars: Map<Seq<char>, Seq<char>>, line: Seq<char>) -> Map<
    Seq<char>,
    Seq<char>,
> {
    match line_outcome(line) {
        LineOutcome::Pair { key, value } => vars.insert(key, value),
        _ => vars,
    }
}

/// The mapping that the lines describe, applied in order to the empty one.
pub open spec fn parse_lines(lines: Seq<Seq<char>>) -> Map<Seq<char>, Seq<char>>
    decreases lines.len(),
{
    if lines.len() == 0 {
        Map::empty()
    } else {
        apply_line(parse_lines(lines.drop_last()), lines.last())
    }
}

/// The mapping that the text describes.
pub open spec fn parse_text(text: Seq<char>) -> Map<Seq<char>, Seq<char>> {
    parse_lines(split_lines(text))
}

/// The number of assignments among the lines.
pub open spec fn count_pairs(lines: Seq<Seq<char>>) -> nat
    decreases lines.len(),
{
    if lines.len() == 0 {
        0
    } else if line_outcome(lines.last()) is Pair {
        count_pairs(lines.drop_last()) + 1
    } else {
        count_pairs(lines.drop_last())
    }
}

/// No two assignments among the lines have the same key.
pub open spec fn assigned_keys_distinct(lines: Seq<Seq<char>>) -> bool {
    forall|i: int, j: int|
        0 <= i < j < lines.len() && line_outcome(#[trigger] lines[i]) is Pair && line_outcome(
            #[trigger] lines[j],
        ) is Pair ==> line_outcome(lines[i])->key != line_outcome(lines[j])->key
}

/// The keys of the mapping are the keys of the assignments among the lines:
/// finitely many, none of them empty, and none with whitespace at either
/// end.
pub proof fn lemma_parse_lines_keys(lines: Seq<Seq<char>>)
    ensures
        parse_lines(lines).dom().finite(),
        forall|k: Seq<char>|
            parse_lines(lines).contains_key(k) <==> exists|i: int|
                0 <= i < lines.len() && line_outcome(#[trigger] lines[i]) is Pair && line_outcome(
                    lines[i],
                )->key == k,
        forall|k: Seq<char>|
            parse_lines(lines).contains_key(k) ==> k.len() > 0 && !is_whitespace(k[0])
                && !is_whitespace(k.last()),
    decreases lines.len(),
{
    if lines.len() > 0 {
        let front = lines.drop_last();
        let last = lines.last();
        lemma_parse_lines_keys(front);
        if line_outcome(last) is Pair {
            let t = trim(last);
            lemma_trim(t.take(index_of(t, '=')));
        }
        assert forall|k: Seq<char>|
            parse_lines(lines).contains_key(k) <==> exists|i: int|
                0 <= i < lines.len() && line_outcome(#[trigger] lines[i]) is Pair && line_outcome(
                    lines[i],
                )->key == k by {
            if parse_lines(lines).contains_key(k) {
                if line_outcome(last) is Pair && line_outcome(last)->key == k {
                    assert(lines[lines.len() - 1] == last);
                } else {
                    let i = choose|i: int|
                        0 <= i < front.len() && line_outcome(#[trigger] front[i]) is Pair
                            && line_outcome(front[i])->key == k;
                    assert(lines[i] == front[i]);
                }
            }
            if exists|i: int|
                0 <= i < lines.len() && line_outcome(#[trigger] lines[i]) is Pair && line_outcome(
                    lines[i],
                )->key == k {
                let i = choose|i: int|
                    0 <= i < lines.len() && line_outcome(#[trigger] lines[i]) is Pair
                        && line_outcome(lines[i])->key == k;
                if i < front.len() {
                    assert(front[i] == lines[i]);
                }
            }
        }
    }
}

/// The last assignment to a key gives the key its value: where the line at
/// `i` assigns and no later line assigns to the same key, the mapping has
/// the value of the line at `i`.
pub proof fn lemma_last_assignment_wins(lines: Seq<Seq<char>>, i: int)
    requires
        0 <= i < lines.len(),
        line_outcome(lines[i]) is Pair,
        forall|j: int|
            i < j < lines.len() && line_outcome(#[trigger] lines[j]) is Pair ==> line_outcome(
                lines[j],
            )->key != line_outcome(lines[i])->key,
    ensures
        parse_lines(lines).contains_key(line_outcome(lines[i])->key),
        parse_lines(lines)[line_outcome(lines[i])->key] == line_outcome(lines[i])->value,
    decreases lines.len(),
{
    if i < lines.len() - 1 {
        let front = lines.drop_last();
        assert(front[i] == lines[i]);
        assert forall|j: int|
            i < j < front.len() && line_outcome(#[trigger] front[j]) is Pair implies line_outcome(
            front[j],
        )->key != line_outcome(front[i])->key by {
            assert(front[j] == lines[j]);
        }
        lemma_last_assignment_wins(front, i);
        assert(lines[lines.len() - 1] == lines.last());
    }
}

/// Where no two assignments have the same key, every assignment counts: the
/// mapping has one key for each, with the value of its line.
pub proof fn lemma_distinct_assignments_all_count(lines: Seq<Seq<char>>)
    requires
        assigned_keys_distinct(lines),
    ensures
        parse_lines(lines).dom().finite(),
        parse_lines(lines).len() == count_pairs(lines),
        forall|i: int|
            0 <= i < lines.len() && line_outcome(#[trigger] lines[i]) is Pair ==> parse_lines(
                lines,
            ).contains_key(line_outcome(lines[i])->key) && parse_lines(lines)[line_outcome(
                lines[i],
            )->key] == line_outcome(lines[i])->value,
    decreases lines.len(),
{
    lemma_parse_lines_keys(lines);
    if lines.len() > 0 {
        let front = lines.drop_last();
        let last = lines.last();
        assert(assigned_keys_distinct(front)) by {
            assert forall|i: int, j: int|
                0 <= i < j < front.len() && line_outcome(#[trigger] front[i]) is Pair
                    && line_outcome(#[trigger] front[j]) is Pair implies line_outcome(
                front[i],
            )->key != line_outcome(front[j])->key by {
                assert(front[i] == lines[i] && front[j] == lines[j]);
            }
        }
        lemma_distinct_assignments_all_count(front);
        lemma_parse_lines_keys(front);
        if line_outcome(last) is Pair {
            let key = line_outcome(last)->key;
            assert(!parse_lines(front).contains_key(key)) by {
                if parse_lines(front).contains_key(key) {
                    let i = choose|i: int|
                        0 <= i < front.len() && line_outcome(#[trigger] front[i]) is Pair
                            && line_outcome(front[i])->key == key;
                    assert(front[i] == lines[i]);
                    assert(lines[lines.len() - 1] == last);
                }
            }
        }
        assert forall|i: int|
            0 <= i < lines.len() && line_outcome(#[trigger] lines[i]) is Pair implies parse_lines(
            lines,
        ).contains_key(line_outcome(lines[i])->key) && parse_lines(lines)[line_outcome(
            lines[i],
        )->key] == line_outcome(lines[i])->value by {
            assert forall|j: int|
                i < j < lines.len() && line_outcome(#[trigger] lines[j]) is Pair implies line_outcome(
                lines[j],
            )->key != line_outcome(lines[i])->key by {}
            lemma_last_assignment_wins(lines, i);
        }
    }
}

/// For a text in which no two assignments have the same key, the mapping
/// has exactly as many entries as the text has assignments, and each entry
/// is the trimmed key and the trimmed value of its line. Blank lines, comments
/// and other lines may stand anywhere between them.
pub proof fn lemma_text_of_distinct_assignments(text: Seq<char>)
    requires
        assigned_keys_distinct(split_lines(text)),
    ensures
        parse_text(text).dom().finite(),
        parse_text(text).len() == count_pairs(split_lines(text)),
        forall|i: int|
            0 <= i < split_lines(text).len() && line_outcome(#[trigger] split_lines(text)[i])
                is Pair ==> parse_text(text).contains_key(line_outcome(split_lines(text)[i])->key)
                && parse_text(text)[line_outcome(split_lines(text)[i])->key] == line_outcome(
                split_lines(text)[i],
            )->value,
{
    lemma_distinct_assignments_all_count(split_lines(text));
}

/// A line that is no assignment adds nothing, wherever it stands: the lines
/// with it describe the same mapping as the lines without it.
pub proof fn lemma_other_line_adds_nothing(
    before: Seq<Seq<char>>,
    line: Seq<char>,
    after: Seq<Seq<char>>,
)
    requires
        !(line_outcome(line) is Pair),
    ensures
        parse_lines(before + seq![line] + after) == parse_lines(before + after),
    decreases after.len(),
{
    let with = before + seq![line] + after;
    let without = before + after;
    if after.len() == 0 {
        assert(with.drop_last() =~= before);
        assert(without =~= before);
    } else {
        let shorter = after.drop_last();
        lemma_other_line_adds_nothing(before, line, shorter);
        assert(with.drop_last() =~= before + seq![line] + shorter);
        assert(without.drop_last() =~= before + shorter);
        assert(with.last() == after.last());
        assert(without.last() == after.last());
    }
}

/// The same of texts: a text with a line that is no assignment describes
/// the same mapping as the text without that line.
pub proof fn lemma_other_line_adds_nothing_to_text(
    before: Seq<Seq<char>>,
    line: Seq<char>,
    after: Seq<Seq<char>>,
)
    requires
        !(line_outcome(line) is Pair),
        before.len() + after.len() > 0,
        forall|j: int| 0 <= j < line.len() ==> line[j] != '\n',
        forall|i: int, j: int|
            0 <= i < before.len() && 0 <= j < before[i].len() ==> (#[trigger] before[i][j])
                != '\n',
        forall|i: int, j: int|
            0 <= i < after.len() && 0 <= j < after[i].len() ==> (#[trigger] after[i][j]) != '\n',
    ensures
        parse_text(join_lines(before + seq![line] + after)) == parse_text(
            join_lines(before + after),
        ),
{
    let with = before + seq![line] + after;
    let without = before + after;
    assert forall|i: int, j: int| 0 <= i < with.len() && 0 <= j < with[i].len() implies (
    #[trigger] with[i][j]) != '\n' by {
        if i < before.len() {
            assert(with[i][j] == before[i][j]);
        } else if i == before.len() {
            assert(with[i][j] == line[j]);
        } else {
            assert(with[i][j] == after[i - before.len() - 1][j]);
        }
    }
    assert forall|i: int, j: int| 0 <= i < without.len() && 0 <= j < without[i].len() implies (
    #[trigger] without[i][j]) != '\n' by {
        if i < before.len() {
            assert(without[i][j] == before[i][j]);
        } else {
            assert(without[i][j] == after[i - before.len()][j]);
        }
    }
    lemma_split_joined_lines(with);
    lemma_split_joined_lines(without);
    lemma_other_line_adds_nothing(before, line, after);
}

/// A line that holds no `=` is no assignment.
pub proof fn lemma_line_without_equals(line: Seq<char>)
    requires
        forall|i: int| 0 <= i < line.len() ==> line[i] != '=',
    ensures
        !(line_outcome(line) is Pair),
{
    let start = trim_start(line);
    let t = trim(line);
    lemma_trim_start(line);
    lemma_trim_end(start);
    lemma_index_of(t, '=');
    let eq = index_of(t, '=');
    if 0 <= eq < t.len() {
        let offset = line.len() - start.len();
        assert(t[eq] == start[eq]);
        assert(start[eq] == line[offset + eq]);
    }
}

/// Reads the characters in `lo..hi` as one line.
fn parse_range(chars: &Vec<char>, lo: usize, hi: usize) -> (line: ParsedLine)
    requires
        lo <= hi <= chars.len(),
    ensures
        line@ == line_outcome(chars@.subrange(lo as int, hi as int)),
{
    let (a, b) = trim_range(chars, lo, hi);
    let ghost t = chars@.subrange(a as int, b as int);
    if a == b {
        return ParsedLine::Ignored;
    }
    assert(t[0] == chars@[a as int]);
    if chars[a] == '#' {
        return ParsedLine::Ignored;
    }
    let eq = find_char(chars, a, b, '=');
    if eq == b {
        return ParsedLine::Malformed;
    }
    assert(t.take(eq - a) =~= chars@.subrange(a as int, eq as int));
    assert(t.skip(eq - a + 1) =~= chars@.subrange(eq + 1, b as int));
    let (key_lo, key_hi) = trim_range(chars, a, eq);
    let (value_lo, value_hi) = trim_range(chars, eq + 1, b);
    if key_lo == key_hi {
        ParsedLine::Malformed
    } else {
        ParsedLine::Pair {
            key: string_of_range(chars, key_lo, key_hi),
            value: string_of_range(chars, value_lo, value_hi),
        }
    }
}

/// Reads one line. The text is taken as a single line even where it holds
/// line feeds.
pub fn parse_line(line: &str) -> (parsed: ParsedLine)
    ensures
        parsed@ == line_outcome(line@),
{
    let chars = chars_of(line);
    assert(chars@.subrange(0, chars@.len() as int) =~= line@);
    parse_range(&chars, 0, chars.len())
}

/// Reads the text of a file: the mapping that its lines describe.
pub fn parse_content(content: &str) -> (vars: Variables)
    ensures
        vars@ == parse_text(content@),
{
    let chars = chars_of(content);
    let n = chars.len();
    let mut vars = Variables::new();
    let mut start: usize = 0;
    let ghost mut done: Seq<Seq<char>> = Seq::empty();
    assert(chars@.subrange(0, n as int) =~= chars@);
    assert(done + split_lines(chars@) =~= split_lines(chars@));
    loop
        invariant_except_break
            vars@ == parse_lines(done),
            split_lines(chars@) == done + split_lines(chars@.subrange(start as int, n as int)),
        invariant
            n == chars.len(),
            start <= n,
        ensures
            vars@ == parse_lines(split_lines(chars@)),
        decreases n - start,
    {
        let end = find_char(&chars, start, n, '\n');
        let parsed = parse_range(&chars, start, end);
        let ghost rest = chars@.subrange(start as int, n as int);
        let ghost line = chars@.subrange(start as int, end as int);
        let ghost before = done;
        match parsed {
            ParsedLine::Pair { key, value } => {
                vars.insert(key, value);
            },
            _ => {},
        }
        proof {
            done = before.push(line);
            assert(done.drop_last() =~= before);
            assert(vars@ == parse_lines(done));
            lemma_index_of(rest, '\n');
        }
        if end == n {
            assert(rest =~= line);
            assert(before + seq![rest] =~= done);
            break ;
        }
        proof {
            assert(rest.take(end - start) =~= line);
            assert(rest.skip(end - start + 1) =~= chars@.subrange(end + 1, n as int));
            assert(before + (seq![line] + split_lines(chars@.subrange(end + 1, n as int))) =~= done
                + split_lines(chars@.subrange(end + 1, n as int)));
        }
        start = end + 1;
    }
    vars
}

} // verus!
