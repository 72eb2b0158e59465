//! Splitting a text into lines.
//!
//! A line ends at a line feed, or at a carriage return directly followed by
//! a line feed; neither belongs to the line. The last line need not be ended:
//! what follows the last line feed is a line of its own unless it is empty,
//! and a carriage return at its end stays in it.

use vstd::prelude::*;

verus! {

/// The number of characters before the first line feed in `s`, or the length
/// of `s` if it holds none.
pub open spec fn first_newline(s: Seq<char>) -> int
    decreases s.len(),
{
    if s.len() == 0 || s[0] == '\n' {
        0
    } else {
        1 + first_newline(s.drop_first())
    }
}

/// A line as it stood before its line feed, without the carriage return that
/// may precede the line feed.
pub open spec fn without_carriage_return(line: Seq<char>) -> Seq<char> {
    if line.len() > 0 && line.last() == '\r' {
        line.drop_last()
    } else {
        line
    }
}

/// The lines of a text, in order.
pub open spec fn lines_of(s: Seq<char>) -> Seq<Seq<char>>
    decreases s.len(),
{
    if s.len() == 0 {
        Seq::empty()
    } else {
        let k = first_newline(s);
        if 0 <= k < s.len() {
            seq![without_carriage_return(s.take(k))] + lines_of(s.skip(k + 1))
        } else {
            seq![s]
        }
    }
}

/// The text that holds the given lines, a line feed between each two.
pub open spec fn join_lines(lines: Seq<Seq<char>>) -> Seq<char>
    decreases lines.len(),
{
    if lines.len() == 0 {
        Seq::empty()
    } else if lines.len() == 1 {
        lines[0]
    } else {
        lines[0] + seq!['\n'] + join_lines(lines.drop_first())
    }
}

/// Whether a line survives being joined and split again: it is not empty,
/// holds no line feed and does not end in a carriage return.
pub open spec fn plain_line(line: Seq<char>) -> bool {
    &&& line.len() > 0
    &&& line.last() != '\r'
    &&& forall|i: int| 0 <= i < line.len() ==> line[i] != '\n'
}

/// The parts of `text` that the spans `(from, to)` mark, each from `from` up
/// to, not including, `to`.
pub open spec fn span_texts(text: Seq<char>, spans: Seq<(usize, usize)>) -> Seq<Seq<char>> {
    Seq::new(spans.len(), |i: int| text.subrange(spans[i].0 as int, spans[i].1 as int))
}

/// Whether every span lies within a text of `len` characters.
pub open spec fn spans_within(spans: Seq<(usize, usize)>, len: int) -> bool {
    forall|i: int| 0 <= i < spans.len() ==> (#[trigger] spans[i]).0 <= spans[i].1 <= len
}

/// The first line feed is where a line feed stands with none before it.
pub proof fn lemma_first_newline_is(s: Seq<char>, k: int)
    requires
        0 <= k <= s.len(),
        forall|i: int| 0 <= i < k ==> s[i] != '\n',
        k < s.len() ==> s[k] == '\n',
    ensures
        first_newline(s) == k,
    decreases s.len(),
{
    if k > 0 {
        lemma_first_newline_is(s.drop_first(), k - 1);
    }
}

/// Joining one more line appends a line feed and the line, or the line alone
/// if it is the first.
pub proof fn lemma_join_lines_push(lines: Seq<Seq<char>>, line: Seq<char>)
    ensures
        join_lines(lines.push(line)) == if lines.len() == 0 {
            line
        } else {
            join_lines(lines) + seq!['\n'] + line
        },
    decreases lines.len(),
{
    if lines.len() > 0 {
        let tail = lines.drop_first();
        assert(lines.push(line).drop_first() =~= tail.push(line));
        lemma_join_lines_push(tail, line);
    }
}

/// Splitting undoes joining: the lines of the text that joins plain lines
/// are those lines.
pub proof fn lemma_lines_of_join(lines: Seq<Seq<char>>)
    requires
        forall|i: int| 0 <= i < lines.len() ==> plain_line(#[trigger] lines[i]),
    ensures
        lines_of(join_lines(lines)) == lines,
    decreases lines.len(),
{
    if lines.len() == 1 {
        // One line: it holds no line feed, so the text is that line.
        lemma_first_newline_is(lines[0], lines[0].len() as int);
    } else if lines.len() > 1 {
        // Several lines: the first line feed is the one behind the first line.
        let head = lines[0];
        let tail = lines.drop_first();
        let s = join_lines(lines);
        let k = head.len() as int;
        lemma_lines_of_join(tail);
        lemma_first_newline_is(s, k);
        assert(s.take(k) =~= head);
        assert(s.skip(k + 1) =~= join_lines(tail));
    }
}

/// Finds the first line feed at or after `from`; gives the length of `text`
/// if there is none.
fn find_newline(text: &[char], from: usize) -> (at: usize)
    requires
        from <= text@.len(),
    ensures
        from <= at <= text@.len(),
        at - from == first_newline(text@.skip(from as int)),
{
    let n = text.len();
    let mut at: usize = from;
    while at < n && text[at] != '\n'
        invariant
            from <= at <= n,
            n == text@.len(),
            first_newline(text@.skip(from as int)) == (at - from) + first_newline(
                text@.skip(at as int),
            ),
        decreases n - at,
    {
        assert(text@.skip(at as int).drop_first() =~= text@.skip(at + 1));
        at += 1;
    }
    at
}

/// Splits `text` into its lines and gives the span of each.
pub fn line_spans(text: &[char]) -> (spans: Vec<(usize, usize)>)
    ensures
        spans_within(spans@, text@.len() as int),
        span_texts(text@, spans@) == lines_of(text@),
{
    let n = text.len();
    let mut spans: Vec<(usize, usize)> = Vec::new();
    let mut pos: usize = 0;
    assert(text@.skip(0) =~= text@);
    while pos < n
        invariant
            pos <= n,
            n == text@.len(),
            spans_within(spans@, n as int),
            lines_of(text@) == span_texts(text@, spans@) + lines_of(text@.skip(pos as int)),
        decreases n - pos,
    {
        let ghost rest = text@.skip(pos as int);
        let end = find_newline(text, pos);
        if end == n {
            spans.push((pos, n));
            pos = n;
        } else {
            let stop: usize = if end > pos && text[end - 1] == '\r' {
                end - 1
            } else {
                end
            };
            let ghost raw = rest.take(end - pos);
            let ghost line = without_carriage_return(raw);
            assert(line =~= text@.subrange(pos as int, stop as int));
            assert(rest.skip(end - pos + 1) =~= text@.skip(end + 1));
            spans.push((pos, stop));
            pos = end + 1;
        }
    }
    spans
}

} // verus!
