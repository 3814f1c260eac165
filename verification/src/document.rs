//! Searching a document whose whole text is at hand: every line is known up
//! front, so the window of a match is a slice of the lines around it.

use vstd::prelude::*;
use vstd::utf8::encode_utf8;
use crate::matcher::{matcher_is_match, regex_matches, QueryMatcher};
use crate::sink::{numbered_view, result_views, texts, ResultView, SearchResult};
use crate::text::{trim_str, trimmed};

verus! {

/// `core::str::Lines`, the iterator over the lines of a text.
#[verifier::external_type_specification]
#[verifier::external_body]
pub struct ExLines<'a>(core::str::Lines<'a>);

/// The lines a line iterator has yet to yield.
pub uninterp spec fn lines_left(lines: core::str::Lines<'_>) -> Seq<Seq<char>>;

/// Number of characters before the first line feed of `text`, or its length
/// where it has none.
pub open spec fn first_line_len(text: Seq<char>) -> nat
    decreases text.len(),
{
    if text.len() == 0 || text[0] == '\n' {
        0
    } else {
        1 + first_line_len(text.drop_first())
    }
}

/// A line without the carriage return that stood before its line feed.
pub open spec fn without_carriage_return(line: Seq<char>) -> Seq<char> {
    if line.len() > 0 && line.last() == '\r' {
        line.drop_last()
    } else {
        line
    }
}

/// The lines of a text: it is cut at each line feed, a carriage return
/// directly before a line feed belongs to the line ending, and a final line
/// ending starts no further line.
pub open spec fn split_lines(text: Seq<char>) -> Seq<Seq<char>>
    decreases text.len(),
{
    if text.len() == 0 {
        Seq::empty()
    } else {
        let n = first_line_len(text);
        if n >= text.len() {
            seq![text]
        } else {
            seq![without_carriage_return(text.subrange(0, n as int))] + split_lines(
                text.subrange(n as int + 1, text.len() as int),
            )
        }
    }
}

/// Calls `str::lines`: the iterator yields the lines of the text.
#[verifier::external_body]
fn text_lines<'a>(text: &'a str) -> (lines: core::str::Lines<'a>)
    ensures
        lines_left(lines) == split_lines(text@),
{
    text.lines()
}

/// Calls `Iterator::next` on a line iterator: it yields the first of the
/// lines that are left, or `None` when none is.
#[verifier::external_body]
fn next_line<'a>(lines: &mut core::str::Lines<'a>) -> (line: Option<&'a str>)
    ensures
        match line {
            Some(l) => lines_left(*old(lines)).len() > 0 && l@ == lines_left(*old(lines))[0]
                && lines_left(*final(lines)) == lines_left(*old(lines)).drop_first(),
            None => lines_left(*old(lines)).len() == 0 && lines_left(*final(lines)).len() == 0,
        },
{
    lines.next()
}

/// Each line trimmed.
pub open spec fn trimmed_lines(lines: Seq<Seq<char>>) -> Seq<Seq<char>> {
    Seq::new(lines.len(), |i: int| trimmed(lines[i]))
}

/// Whether a trimmed line counts as a match: it is not empty and the
/// pattern matches in it.
pub open spec fn line_hits(pattern: Seq<char>, line: Seq<char>) -> bool {
    line.len() > 0 && regex_matches(pattern, encode_utf8(line))
}

/// Index of the first line of the window before line `i`.
pub open spec fn window_start(i: int, window: nat) -> int {
    if i >= window {
        i - window
    } else {
        0
    }
}

/// Index after the last line of the window that follows line `i` of `n`.
pub open spec fn window_end(i: int, window: nat, n: int) -> int {
    if i + 1 + window <= n {
        i + 1 + window
    } else {
        n
    }
}

/// The lines with indices `from..to`, each with its 1-based line number.
pub open spec fn numbered_slice(lines: Seq<Seq<char>>, from: int, to: int) -> Seq<
    (u64, Seq<char>),
> {
    Seq::new((to - from) as nat, |k: int| ((from + k + 1) as u64, lines[from + k]))
}

/// The record of a match at index `i`: the line with up to `window` lines
/// on either side, fewer near the start and the end.
pub open spec fn document_record(path: Seq<char>, lines: Seq<Seq<char>>, window: nat, i: int)
    -> ResultView {
    ResultView {
        path,
        line_number: (i + 1) as u64,
        line: lines[i],
        context_before: numbered_slice(lines, window_start(i, window), i),
        context_after: numbered_slice(lines, i + 1, window_end(i, window, lines.len() as int)),
    }
}

/// The records of the matches among the first `n` lines, in line order.
pub open spec fn document_results_upto(
    path: Seq<char>,
    lines: Seq<Seq<char>>,
    pattern: Seq<char>,
    window: nat,
    n: int,
) -> Seq<ResultView>
    decreases n,
{
    if n <= 0 {
        Seq::empty()
    } else {
        let earlier = document_results_upto(path, lines, pattern, window, n - 1);
        if line_hits(pattern, lines[n - 1]) {
            earlier.push(document_record(path, lines, window, n - 1))
        } else {
            earlier
        }
    }
}

/// The records of all matches in a document given by its trimmed lines.
pub open spec fn document_results(
    path: Seq<char>,
    lines: Seq<Seq<char>>,
    pattern: Seq<char>,
    window: nat,
) -> Seq<ResultView> {
    document_results_upto(path, lines, pattern, window, lines.len() as int)
}

/// Splits a text into its lines and trims each.
pub fn document_lines(text: &str) -> (lines: Vec<String>)
    ensures
        texts(lines@) == trimmed_lines(split_lines(text@)),
{
    let mut rest = text_lines(text);
    let mut lines: Vec<String> = Vec::new();
    loop
        invariant
            lines.len() + lines_left(rest).len() == split_lines(text@).len(),
            forall|k: int|
                0 <= k < lines_left(rest).len() ==> #[trigger] lines_left(rest)[k] == split_lines(
                    text@,
                )[lines.len() + k],
            forall|k: int|
                0 <= k < lines.len() ==> (#[trigger] lines[k])@ == trimmed(split_lines(text@)[k]),
        ensures
            lines_left(rest).len() == 0,
        decreases lines_left(rest).len(),
    {
        match next_line(&mut rest) {
            Some(line) => {
                lines.push(trim_str(line).to_owned());
            },
            None => {
                break ;
            },
        }
    }
    assert(texts(lines@) =~= trimmed_lines(split_lines(text@)));
    lines
}

/// Copies the lines with indices `from..to` together with their line
/// numbers.
fn copy_numbered(lines: &Vec<String>, from: usize, to: usize) -> (out: Vec<(u64, String)>)
    requires
        from <= to <= lines.len(),
    ensures
        numbered_view(out@) == numbered_slice(texts(lines@), from as int, to as int),
{
    let mut out: Vec<(u64, String)> = Vec::new();
    let mut k: usize = from;
    while k < to
        invariant
            from <= k <= to <= lines.len(),
            out.len() == k - from,
            forall|j: int|
                0 <= j < out.len() ==> (#[trigger] out[j]).0 == (from + j + 1) as u64 && out[j].1@
                    == lines[from + j]@,
        decreases to - k,
    {
        out.push(((k as u64) + 1, lines[k].clone()));
        k += 1;
    }
    assert(numbered_view(out@) =~= numbered_slice(
        texts(lines@),
        from as int,
        to as int,
    ));
    out
}

/// Searches the text extracted from a document: every non-empty trimmed
/// line that the matcher accepts gives one record, in line order, with the
/// up to `context_lines` lines before and after it.
pub fn search_document(
    text: &str,
    matcher: &QueryMatcher,
    context_lines: usize,
    path: &str,
) -> (results: Vec<SearchResult>)
    ensures
        result_views(results@) == document_results(
            path@,
            trimmed_lines(split_lines(text@)),
            matcher.pattern(),
            context_lines as nat,
        ),
{
    let lines = document_lines(text);
    let n = lines.len();
    let ghost model = texts(lines@);
    let ghost pattern = matcher.pattern();
    let mut results: Vec<SearchResult> = Vec::new();
    let mut i: usize = 0;
    while i < n
        invariant
            i <= n,
            n == lines.len(),
            model == texts(lines@),
            pattern == matcher.pattern(),
            result_views(results@) == document_results_upto(
                path@,
                model,
                pattern,
                context_lines as nat,
                i as int,
            ),
        decreases n - i,
    {
        let line = lines[i].as_str();
        if !line.is_empty() && matcher_is_match(matcher.regex(), line.as_bytes()) {
            let from = if i >= context_lines {
                i - context_lines
            } else {
                0
            };
            let to = if context_lines < n - i - 1 {
                i + 1 + context_lines
            } else {
                n
            };
            let record = SearchResult {
                path: path.to_owned(),
                line_number: (i as u64) + 1,
                line: lines[i].clone(),
                context_before: copy_numbered(&lines, from, i),
                context_after: copy_numbered(&lines, i + 1, to),
            };
            assert(record@ =~= document_record(path@, model, context_lines as nat, i as int));
            let ghost before = result_views(results@);
            results.push(record);
            assert(result_views(results@) =~= before.push(record@));
        }
        i += 1;
    }
    results
}

} // verus!
