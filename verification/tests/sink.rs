use quicksearch::scan::replay_scan;
use quicksearch::{ContextKind, ScanEvent, SearchResult, SearchSink, SinkError, Transcript};

fn hit(line_number: u64, text: &str) -> ScanEvent {
    ScanEvent::Match { line_number: Some(line_number), bytes: text.as_bytes().to_vec() }
}

fn before(text: &str) -> ScanEvent {
    ScanEvent::Context { kind: ContextKind::Before, bytes: text.as_bytes().to_vec() }
}

fn after(text: &str) -> ScanEvent {
    ScanEvent::Context { kind: ContextKind::After, bytes: text.as_bytes().to_vec() }
}

fn numbered(lines: &[(u64, &str)]) -> Vec<(u64, String)> {
    lines.iter().map(|(n, t)| (*n, t.to_string())).collect()
}

fn run(context_lines: usize, events: Vec<ScanEvent>) -> Vec<SearchResult> {
    replay_scan("a.txt", context_lines, &Transcript { events, finished: true })
}

#[test]
fn new_sink_has_nothing_to_emit() {
    let mut sink = SearchSink::new("a.txt".to_string(), 2);
    assert!(sink.send_last_match().is_none());
    assert!(sink.finish().is_none());
}

#[test]
fn match_is_held_back_until_the_next_event_that_ends_it() {
    let mut sink = SearchSink::new("a.txt".to_string(), 1);
    let first = sink.matched(Some(3), b"hello\n").unwrap();
    assert!(first.is_none());
    sink.context(ContextKind::After, b"line4\n");
    let record = sink.finish().unwrap();
    assert_eq!(record.path, "a.txt");
    assert_eq!(record.line_number, 3);
    assert_eq!(record.line, "hello");
    assert!(record.context_before.is_empty());
    assert_eq!(record.context_after, numbered(&[(4, "line4")]));
    assert!(sink.finish().is_none());
}

#[test]
fn five_line_file_with_one_match_and_window_of_one() {
    let records = run(1, vec![before("line2\n"), hit(3, "hello\n"), after("line4\n")]);
    assert_eq!(records.len(), 1);
    let record = &records[0];
    assert_eq!(record.path, "a.txt");
    assert_eq!(record.line_number, 3);
    assert_eq!(record.line, "hello");
    assert_eq!(record.context_before, numbered(&[(2, "line2")]));
    assert_eq!(record.context_after, numbered(&[(4, "line4")]));
}

#[test]
fn second_match_cuts_the_first_match_after_context_short() {
    let records = run(
        2,
        vec![
            before("l1\n"),
            before("l2\n"),
            hit(3, "m3\n"),
            after("l4\n"),
            hit(5, "m5\n"),
            after("l6\n"),
            after("l7\n"),
        ],
    );
    assert_eq!(records.len(), 2);
    assert_eq!(records[0].line_number, 3);
    assert_eq!(records[0].context_before, numbered(&[(1, "l1"), (2, "l2")]));
    assert_eq!(records[0].context_after, numbered(&[(4, "l4")]));
    assert_eq!(records[1].line_number, 5);
    assert_eq!(records[1].line, "m5");
    assert!(records[1].context_before.is_empty());
    assert_eq!(records[1].context_after, numbered(&[(6, "l6"), (7, "l7")]));
}

#[test]
fn adjacent_matches_leave_the_first_without_after_context() {
    let records = run(2, vec![hit(1, "a\n"), hit(2, "b\n"), after("c\n")]);
    assert_eq!(records.len(), 2);
    assert!(records[0].context_after.is_empty());
    assert_eq!(records[1].context_after, numbered(&[(3, "c")]));
}

#[test]
fn before_buffer_keeps_only_the_last_window_lines() {
    let records = run(2, vec![before("l1\n"), before("l2\n"), before("l3\n"), hit(4, "m\n")]);
    assert_eq!(records.len(), 1);
    assert_eq!(records[0].context_before, numbered(&[(2, "l2"), (3, "l3")]));
}

#[test]
fn after_buffer_takes_no_more_than_the_window() {
    let records = run(1, vec![hit(1, "m\n"), after("l2\n"), after("l3\n")]);
    assert_eq!(records.len(), 1);
    assert_eq!(records[0].context_after, numbered(&[(2, "l2")]));
}

#[test]
fn window_of_zero_keeps_no_context() {
    let records = run(0, vec![before("l1\n"), hit(2, "m\n"), after("l3\n")]);
    assert_eq!(records.len(), 1);
    assert!(records[0].context_before.is_empty());
    assert!(records[0].context_after.is_empty());
}

#[test]
fn after_lines_without_a_pending_match_are_dropped() {
    let mut sink = SearchSink::new("a.txt".to_string(), 2);
    sink.context(ContextKind::After, b"stray\n");
    assert!(sink.matched(Some(5), b"m\n").unwrap().is_none());
    let record = sink.finish().unwrap();
    assert!(record.context_after.is_empty());
}

#[test]
fn other_context_is_ignored() {
    let mut sink = SearchSink::new("a.txt".to_string(), 2);
    sink.context(ContextKind::Other, b"x\n");
    assert!(sink.matched(Some(2), b"m\n").unwrap().is_none());
    sink.context(ContextKind::Other, b"y\n");
    let record = sink.finish().unwrap();
    assert!(record.context_before.is_empty());
    assert!(record.context_after.is_empty());
}

#[test]
fn lines_are_trimmed() {
    let records = run(1, vec![before("\t before \r\n"), hit(2, "  hello world \r\n"), after(" \n")]);
    assert_eq!(records[0].line, "hello world");
    assert_eq!(records[0].context_before, numbered(&[(1, "before")]));
    assert_eq!(records[0].context_after, numbered(&[(3, "")]));
}

#[test]
fn match_that_is_not_utf8_only_emits_the_pending_match() {
    let mut sink = SearchSink::new("a.txt".to_string(), 1);
    assert!(sink.matched(Some(1), b"first\n").unwrap().is_none());
    let emitted = sink.matched(Some(2), &[0xff, 0xfe, b'\n']).unwrap();
    assert_eq!(emitted.unwrap().line, "first");
    assert!(sink.finish().is_none());
}

#[test]
fn context_that_is_not_utf8_is_ignored() {
    let mut sink = SearchSink::new("a.txt".to_string(), 2);
    sink.context(ContextKind::Before, &[0xc3, 0x28]);
    sink.context(ContextKind::Before, b"ok\n");
    assert!(sink.matched(Some(3), b"m\n").unwrap().is_none());
    sink.context(ContextKind::After, &[0xff]);
    let record = sink.finish().unwrap();
    assert_eq!(record.context_before, numbered(&[(2, "ok")]));
    assert!(record.context_after.is_empty());
}

#[test]
fn match_without_a_line_number_is_refused() {
    let mut sink = SearchSink::new("a.txt".to_string(), 1);
    assert_eq!(sink.matched(None, b"m\n").unwrap_err(), SinkError::LineNumberOutOfRange);
    assert_eq!(sink.matched(Some(0), b"m\n").unwrap_err(), SinkError::LineNumberOutOfRange);
    assert!(sink.finish().is_none());
    assert!(sink.matched(Some(1), b"m\n").unwrap().is_none());
    assert_eq!(sink.finish().unwrap().line_number, 1);
}

#[test]
fn match_needs_a_line_for_each_buffered_before_line() {
    let mut sink = SearchSink::new("a.txt".to_string(), 2);
    sink.context(ContextKind::Before, b"l1\n");
    sink.context(ContextKind::Before, b"l2\n");
    assert_eq!(sink.matched(Some(2), b"m\n").unwrap_err(), SinkError::LineNumberOutOfRange);
    assert!(sink.matched(Some(3), b"m\n").unwrap().is_none());
    let record = sink.finish().unwrap();
    assert_eq!(record.context_before, numbered(&[(1, "l1"), (2, "l2")]));
}

#[test]
fn second_match_does_not_show_lines_from_before_the_first() {
    // The lines "x", "hit", "y", "hit" with a window of two.
    let records = run(2, vec![before("x\n"), hit(2, "hit\n"), after("y\n"), hit(4, "hit\n")]);
    assert_eq!(records.len(), 2);
    assert_eq!(records[0].context_before, numbered(&[(1, "x")]));
    assert_eq!(records[0].context_after, numbered(&[(3, "y")]));
    assert_eq!(records[1].line_number, 4);
    assert!(records[1].context_before.is_empty());
    assert!(records[1].context_after.is_empty());
}

#[test]
fn before_context_holds_only_lines_seen_since_the_last_match() {
    let records = run(
        2,
        vec![
            before("l1\n"),
            before("l2\n"),
            hit(3, "m3\n"),
            after("l4\n"),
            after("l5\n"),
            before("l8\n"),
            hit(9, "m9\n"),
        ],
    );
    assert_eq!(records.len(), 2);
    assert_eq!(records[0].context_before, numbered(&[(1, "l1"), (2, "l2")]));
    assert_eq!(records[1].context_before, numbered(&[(8, "l8")]));
}

#[test]
fn match_that_is_not_utf8_empties_the_before_buffer() {
    let mut sink = SearchSink::new("a.txt".to_string(), 2);
    sink.context(ContextKind::Before, b"l1\n");
    assert!(sink.matched(Some(2), &[0xff, b'\n']).unwrap().is_none());
    assert!(sink.matched(Some(3), b"m\n").unwrap().is_none());
    assert!(sink.finish().unwrap().context_before.is_empty());
}

#[test]
fn line_number_below_the_buffered_lines_is_refused() {
    let mut sink = SearchSink::new("a.txt".to_string(), 2);
    assert!(sink.matched(Some(7), b"kept\n").unwrap().is_none());
    sink.context(ContextKind::Before, b"l1\n");
    sink.context(ContextKind::Before, b"l2\n");
    let refused = sink.matched(Some(1), b"m\n");
    assert!(matches!(refused, Err(SinkError::LineNumberOutOfRange)));
    let record = sink.finish().unwrap();
    assert_eq!(record.line, "kept");
    assert_eq!(record.line_number, 7);
}

#[test]
fn line_number_too_large_for_its_window_is_refused() {
    let mut sink = SearchSink::new("a.txt".to_string(), 1);
    assert_eq!(sink.matched(Some(u64::MAX), b"m\n").unwrap_err(), SinkError::LineNumberOutOfRange);
    assert!(sink.matched(Some(u64::MAX - 1), b"m\n").unwrap().is_none());
    sink.context(ContextKind::After, b"last\n");
    let record = sink.finish().unwrap();
    assert_eq!(record.context_after, numbered(&[(u64::MAX, "last")]));
}

#[test]
fn refused_match_ends_the_replay_after_the_pending_match() {
    let records = run(1, vec![hit(4, "a\n"), before("b\n"), hit(0, "c\n"), hit(9, "d\n")]);
    assert_eq!(records.len(), 1);
    assert_eq!(records[0].line, "a");
}

#[test]
fn unfinished_scan_leaves_the_last_match_unemitted() {
    let events = vec![hit(1, "a\n"), hit(2, "b\n")];
    let records = replay_scan("a.txt", 1, &Transcript { events, finished: false });
    assert_eq!(records.len(), 1);
    assert_eq!(records[0].line, "a");
}

#[test]
fn empty_scan_gives_no_records() {
    assert!(run(3, Vec::new()).is_empty());
}

#[test]
fn lone_match_window_sizes_follow_the_formula() {
    // N = 10 lines, C = 3: the scan reports min(C, L - 1) lines before and
    // min(C, N - L) lines after the match at line L.
    let n: u64 = 10;
    let c: u64 = 3;
    for l in 1..=n {
        let mut events = Vec::new();
        let first = if l > c { l - c } else { 1 };
        for j in first..l {
            events.push(before(&format!("line{}\n", j)));
        }
        events.push(hit(l, "needle\n"));
        let last = if l + c < n { l + c } else { n };
        for j in (l + 1)..=last {
            events.push(after(&format!("line{}\n", j)));
        }
        let records = run(c as usize, events);
        assert_eq!(records.len(), 1);
        let record = &records[0];
        assert_eq!(record.line_number, l);
        let expected_before = if c < l - 1 { c } else { l - 1 };
        let expected_after = if c < n - l { c } else { n - l };
        assert_eq!(record.context_before.len() as u64, expected_before);
        assert_eq!(record.context_after.len() as u64, expected_after);
        for (i, (number, text)) in record.context_before.iter().enumerate() {
            assert_eq!(*number, first + i as u64);
            assert_eq!(text, &format!("line{}", number));
        }
        for (i, (number, text)) in record.context_after.iter().enumerate() {
            assert_eq!(*number, l + 1 + i as u64);
            assert_eq!(text, &format!("line{}", number));
        }
    }
}
