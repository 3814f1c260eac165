use quicksearch::render::format_search_result;
use quicksearch::SearchResult;

fn record(line_number: u64, before: &[(u64, &str)], after: &[(u64, &str)]) -> SearchResult {
    SearchResult {
        path: "dir/a.txt".to_string(),
        line_number,
        line: "hello".to_string(),
        context_before: before.iter().map(|(n, t)| (*n, t.to_string())).collect(),
        context_after: after.iter().map(|(n, t)| (*n, t.to_string())).collect(),
    }
}

#[test]
fn record_is_shown_with_its_window() {
    let text = format_search_result(&record(3, &[(2, "line2")], &[(4, "line4")]));
    assert_eq!(text, "File: dir/a.txt:3\n  2 | line2\n> 3 | hello\n  4 | line4\n\n");
}

#[test]
fn record_without_context_is_shown_alone() {
    let text = format_search_result(&record(7, &[], &[]));
    assert_eq!(text, "File: dir/a.txt:7\n> 7 | hello\n\n");
}

#[test]
fn numbers_are_right_aligned_in_their_fields() {
    let text = format_search_result(&record(10, &[(8, "a"), (9, "b")], &[(11, "c")]));
    assert_eq!(text, "File: dir/a.txt:10\n  8 | a\n  9 | b\n>10 | hello\n 11 | c\n\n");
}

#[test]
fn wide_numbers_are_shown_in_full() {
    let text = format_search_result(&record(1000, &[(999, "a")], &[(1001, "b")]));
    assert_eq!(text, "File: dir/a.txt:1000\n999 | a\n>1000 | hello\n1001 | b\n\n");
    let top = format_search_result(&record(u64::MAX, &[], &[]));
    assert_eq!(top, "File: dir/a.txt:18446744073709551615\n>18446744073709551615 | hello\n\n");
}

#[test]
fn line_zero_is_shown_as_zero() {
    let text = format_search_result(&record(0, &[], &[(1, "")]));
    assert_eq!(text, "File: dir/a.txt:0\n> 0 | hello\n  1 | \n\n");
}

#[test]
fn shown_text_agrees_with_the_standard_formatter() {
    let r = record(42, &[(40, "x y"), (41, "é")], &[(43, "日本")]);
    let mut expected = format!("File: {}:{}\n", r.path, r.line_number);
    for (n, t) in &r.context_before {
        expected.push_str(&format!("{:>3} | {}\n", n, t));
    }
    expected.push_str(&format!(">{:>2} | {}\n", r.line_number, r.line));
    for (n, t) in &r.context_after {
        expected.push_str(&format!("{:>3} | {}\n", n, t));
    }
    expected.push('\n');
    assert_eq!(format_search_result(&r), expected);
}
