//! The text shown for a record: a header with the file and line, then the
//! lines of the window, each with its number, the match marked.

use vstd::prelude::*;
use vstd::string::StringExecFns;
use crate::sink::{numbered_view, ResultView, SearchResult};

verus! {

/// The character of a decimal digit.
pub open spec fn digit_char(d: int) -> char {
    if d == 0 {
        '0'
    } else if d == 1 {
        '1'
    } else if d == 2 {
        '2'
    } else if d == 3 {
        '3'
    } else if d == 4 {
        '4'
    } else if d == 5 {
        '5'
    } else if d == 6 {
        '6'
    } else if d == 7 {
        '7'
    } else if d == 8 {
        '8'
    } else {
        '9'
    }
}

/// A number in decimal, without leading zeros.
pub open spec fn decimal(n: nat) -> Seq<char>
    decreases n,
{
    if n < 10 {
        seq![digit_char(n as int)]
    } else {
        decimal(n / 10).push(digit_char((n % 10) as int))
    }
}

/// `count` spaces.
pub open spec fn spaces(count: nat) -> Seq<char> {
    Seq::new(count, |i: int| ' ')
}

/// A text moved to the right edge of a field of `width` characters; a text
/// wider than the field is left as it is.
pub open spec fn right_aligned(text: Seq<char>, width: nat) -> Seq<char> {
    if text.len() < width {
        spaces((width - text.len()) as nat) + text
    } else {
        text
    }
}

/// The first line of a record: the file and the line of the match.
pub open spec fn header_line(path: Seq<char>, line_number: u64) -> Seq<char> {
    seq!['F', 'i', 'l', 'e', ':', ' '] + path + seq![':'] + decimal(line_number as nat) + seq![
        '\n',
    ]
}

/// A line of the window: its number in a field of three, a bar, its text.
pub open spec fn context_line(entry: (u64, Seq<char>)) -> Seq<char> {
    right_aligned(decimal(entry.0 as nat), 3) + seq![' ', '|', ' '] + entry.1 + seq!['\n']
}

/// The matching line: a marker, its number in a field of two, a bar, its
/// text.
pub open spec fn match_line(line_number: u64, text: Seq<char>) -> Seq<char> {
    seq!['>'] + right_aligned(decimal(line_number as nat), 2) + seq![' ', '|', ' '] + text + seq![
        '\n',
    ]
}

/// The lines of one side of the window, one after the other.
pub open spec fn context_lines(entries: Seq<(u64, Seq<char>)>) -> Seq<char>
    decreases entries.len(),
{
    if entries.len() == 0 {
        Seq::empty()
    } else {
        context_lines(entries.drop_last()) + context_line(entries.last())
    }
}

/// The text of a record: header, lines before, the match, lines after, and
/// an empty line.
pub open spec fn rendered(record: ResultView) -> Seq<char> {
    header_line(record.path, record.line_number) + context_lines(record.context_before)
        + match_line(record.line_number, record.line) + context_lines(record.context_after)
        + seq!['\n']
}

/// Calls `String::push`, which appends one character.
#[verifier::external_body]
fn push_char(buffer: &mut String, c: char)
    ensures
        final(buffer)@ == old(buffer)@.push(c),
{
    buffer.push(c)
}

/// The character of a decimal digit.
fn digit(d: u64) -> (c: char)
    requires
        d < 10,
    ensures
        c == digit_char(d as int),
{
    if d == 0 {
        '0'
    } else if d == 1 {
        '1'
    } else if d == 2 {
        '2'
    } else if d == 3 {
        '3'
    } else if d == 4 {
        '4'
    } else if d == 5 {
        '5'
    } else if d == 6 {
        '6'
    } else if d == 7 {
        '7'
    } else if d == 8 {
        '8'
    } else {
        '9'
    }
}

/// The decimal digits of a number.
fn decimal_digits(n: u64) -> (digits: Vec<char>)
    ensures
        digits@ == decimal(n as nat),
        digits@.len() >= 1,
    decreases n,
{
    if n < 10 {
        let mut digits: Vec<char> = Vec::new();
        digits.push(digit(n));
        assert(digits@ =~= seq![digit_char(n as int)]);
        digits
    } else {
        let mut digits = decimal_digits(n / 10);
        digits.push(digit(n % 10));
        digits
    }
}

/// Appends a number, right-aligned in a field of `width` characters.
fn push_number(buffer: &mut String, n: u64, width: usize)
    ensures
        final(buffer)@ == old(buffer)@ + right_aligned(decimal(n as nat), width as nat),
{
    let digits = decimal_digits(n);
    let ghost start = buffer@;
    let mut pad: usize = 0;
    if digits.len() < width {
        let missing = width - digits.len();
        while pad < missing
            invariant
                pad <= missing,
                buffer@ == start + spaces(pad as nat),
            decreases missing - pad,
        {
            push_char(buffer, ' ');
            assert(spaces(pad as nat).push(' ') =~= spaces((pad + 1) as nat));
            assert((start + spaces(pad as nat)).push(' ') =~= start + spaces((pad + 1) as nat));
            pad += 1;
        }
    } else {
        assert(start + spaces(0) =~= start);
    }
    let ghost padded = buffer@;
    let mut i: usize = 0;
    assert(padded + digits@.take(0) =~= padded);
    while i < digits.len()
        invariant
            i <= digits.len(),
            buffer@ == padded + digits@.take(i as int),
        decreases digits.len() - i,
    {
        push_char(buffer, digits[i]);
        assert((padded + digits@.take(i as int)).push(digits@[i as int]) =~= padded
            + digits@.take(i as int + 1));
        i += 1;
    }
    proof {
        assert(digits@.take(digits.len() as int) =~= digits@);
        let text = decimal(n as nat);
        if text.len() < width {
            assert(buffer@ =~= start + (spaces((width - text.len()) as nat) + text));
        }
    }
}

/// Appends the lines of one side of the window.
fn push_context(buffer: &mut String, entries: &Vec<(u64, String)>)
    ensures
        final(buffer)@ == old(buffer)@ + context_lines(numbered_view(entries@)),
{
    let ghost start = buffer@;
    let ghost all = numbered_view(entries@);
    let mut i: usize = 0;
    assert(all.take(0) =~= Seq::<(u64, Seq<char>)>::empty());
    assert(start + context_lines(all.take(0)) =~= start);
    while i < entries.len()
        invariant
            i <= entries.len(),
            all == numbered_view(entries@),
            buffer@ == start + context_lines(all.take(i as int)),
        decreases entries.len() - i,
    {
        let ghost before = buffer@;
        push_number(buffer, entries[i].0, 3);
        buffer.append(" | ");
        buffer.append(entries[i].1.as_str());
        push_char(buffer, '\n');
        proof {
            reveal_strlit(" | ");
            assert(" | "@ =~= seq![' ', '|', ' ']);
            let next = all.take(i as int + 1);
            assert(next.drop_last() =~= all.take(i as int));
            assert(next.last() == all[i as int]);
            assert(all[i as int] == (entries[i as int].0, entries[i as int].1@));
            assert(buffer@ =~= before + context_line(all[i as int]));
            assert(buffer@ =~= start + context_lines(next));
        }
        i += 1;
    }
    assert(all.take(entries.len() as int) =~= all);
}

/// Renders a record as the text that is shown for it.
pub fn format_search_result(result: &SearchResult) -> (text: String)
    ensures
        text@ == rendered(result@),
{
    let mut text = String::new();
    text.append("File: ");
    text.append(result.path.as_str());
    push_char(&mut text, ':');
    push_number(&mut text, result.line_number, 0);
    push_char(&mut text, '\n');
    proof {
        reveal_strlit("File: ");
        assert("File: "@ =~= seq!['F', 'i', 'l', 'e', ':', ' ']);
        assert(text@ =~= header_line(result@.path, result@.line_number));
    }
    push_context(&mut text, &result.context_before);
    let ghost upper = text@;
    push_char(&mut text, '>');
    push_number(&mut text, result.line_number, 2);
    text.append(" | ");
    text.append(result.line.as_str());
    push_char(&mut text, '\n');
    proof {
        reveal_strlit(" | ");
        assert(" | "@ =~= seq![' ', '|', ' ']);
        assert(text@ =~= upper + match_line(result@.line_number, result@.line));
    }
    push_context(&mut text, &result.context_after);
    push_char(&mut text, '\n');
    assert(text@ =~= rendered(result@));
    text
}

} // verus!
