use grep::searcher::{
    Searcher, SearcherBuilder, Sink, SinkContext, SinkContextKind, SinkFinish, SinkMatch,
};
use quicksearch::matcher::build_matcher;
use quicksearch::{
    search_files, ContextKind, FileContent, FileEntry, FileInput, ScanEvent, SearchConfig,
    SearchResult, Transcript,
};

struct Recorder {
    transcript: Transcript,
}

impl Sink for Recorder {
    type Error = std::io::Error;

    fn matched(&mut self, _searcher: &Searcher, mat: &SinkMatch<'_>) -> Result<bool, Self::Error> {
        self.transcript.events.push(ScanEvent::Match {
            line_number: mat.line_number(),
            bytes: mat.bytes().to_vec(),
        });
        Ok(true)
    }

    fn context(
        &mut self,
        _searcher: &Searcher,
        ctx: &SinkContext<'_>,
    ) -> Result<bool, Self::Error> {
        let kind = match ctx.kind() {
            SinkContextKind::Before => ContextKind::Before,
            SinkContextKind::After => ContextKind::After,
            SinkContextKind::Other => ContextKind::Other,
        };
        self.transcript.events.push(ScanEvent::Context { kind, bytes: ctx.bytes().to_vec() });
        Ok(true)
    }

    fn finish(&mut self, _searcher: &Searcher, _: &SinkFinish) -> Result<(), Self::Error> {
        self.transcript.finished = true;
        Ok(())
    }
}

fn config(query: &str, use_regex: bool, context_lines: usize) -> SearchConfig {
    let mut config = SearchConfig::default();
    config.query = query.to_string();
    config.use_regex = use_regex;
    config.context_lines = context_lines;
    config.patterns = vec!["*".to_string()];
    config
}

fn scan(config: &SearchConfig, content: &str) -> Transcript {
    let matcher = build_matcher(&config.query, config.use_regex).unwrap();
    let mut searcher = SearcherBuilder::new()
        .before_context(config.context_lines)
        .after_context(config.context_lines)
        .build();
    let mut recorder = Recorder { transcript: Transcript { events: Vec::new(), finished: false } };
    searcher.search_slice(matcher.regex(), content.as_bytes(), &mut recorder).unwrap();
    recorder.transcript
}

fn search_text(path: &str, content: &str, config: &SearchConfig) -> Vec<SearchResult> {
    let file_name = path.rsplit('/').next().unwrap().to_string();
    let input = FileInput {
        entry: FileEntry { path: path.to_string(), file_name, is_file: true },
        content: FileContent::Scanned(scan(config, content)),
    };
    search_files(config, false, vec![input]).unwrap()
}

fn pairs(lines: &[(u64, &str)]) -> Vec<(u64, String)> {
    lines.iter().map(|(n, t)| (*n, t.to_string())).collect()
}

#[test]
fn text_file_with_one_match_and_window_of_one() {
    let content = "line1\nline2\nhello\nline4\nline5\n";
    let records = search_text("a.txt", content, &config("hello", false, 1));
    assert_eq!(records.len(), 1);
    assert_eq!(records[0].path, "a.txt");
    assert_eq!(records[0].line_number, 3);
    assert_eq!(records[0].line, "hello");
    assert_eq!(records[0].context_before, pairs(&[(2, "line2")]));
    assert_eq!(records[0].context_after, pairs(&[(4, "line4")]));
}

#[test]
fn text_file_literal_query_matches_only_the_exact_text() {
    let records = search_text("/r/f.txt", "axb\na.b\n", &config("a.b", false, 0));
    assert_eq!(records.len(), 1);
    assert_eq!(records[0].path, "/r/f.txt");
    assert_eq!(records[0].line_number, 2);
    assert_eq!(records[0].line, "a.b");
    assert!(records[0].context_before.is_empty());
    assert!(records[0].context_after.is_empty());
}

#[test]
fn text_file_regex_query_matches_both_lines() {
    let records = search_text("/r/f.txt", "axb\na.b\n", &config("a.b", true, 0));
    assert_eq!(records.len(), 2);
    assert_eq!((records[0].line_number, records[0].line.as_str()), (1, "axb"));
    assert_eq!((records[1].line_number, records[1].line.as_str()), (2, "a.b"));
}

#[test]
fn text_file_second_match_cuts_the_first_after_context() {
    let content = "l1\nl2\nhit a\nl4\nhit b\nl6\nl7\nl8\n";
    let records = search_text("a.txt", content, &config("hit", false, 2));
    assert_eq!(records.len(), 2);
    assert_eq!(records[0].line_number, 3);
    assert_eq!(records[0].context_before, pairs(&[(1, "l1"), (2, "l2")]));
    assert_eq!(records[0].context_after, pairs(&[(4, "l4")]));
    assert_eq!(records[1].line_number, 5);
    assert_eq!(records[1].context_after, pairs(&[(6, "l6"), (7, "l7")]));
    for (number, text) in &records[1].context_before {
        assert_eq!(text, &format!("l{}", number));
    }
}

#[test]
fn text_file_second_match_shows_no_line_from_before_the_first() {
    let records = search_text("a.txt", "x\nhit\ny\nhit\n", &config("hit", false, 2));
    assert_eq!(records.len(), 2);
    assert_eq!(records[0].context_before, pairs(&[(1, "x")]));
    assert_eq!(records[0].context_after, pairs(&[(3, "y")]));
    assert_eq!(records[1].line_number, 4);
    assert!(records[1].context_before.iter().all(|(_, text)| text != "x"));
    assert!(records[1].context_before.is_empty());
    assert!(records[1].context_after.is_empty());
}

#[test]
fn text_file_far_apart_matches_have_their_own_windows() {
    let mut content = String::new();
    for j in 1..=12 {
        if j == 3 || j == 10 {
            content.push_str("needle\n");
        } else {
            content.push_str(&format!("line{}\n", j));
        }
    }
    let records = search_text("a.txt", &content, &config("needle", false, 2));
    assert_eq!(records.len(), 2);
    assert_eq!(records[0].context_before, pairs(&[(1, "line1"), (2, "line2")]));
    assert_eq!(records[0].context_after, pairs(&[(4, "line4"), (5, "line5")]));
    assert_eq!(records[1].line_number, 10);
    assert_eq!(records[1].context_before, pairs(&[(8, "line8"), (9, "line9")]));
    assert_eq!(records[1].context_after, pairs(&[(11, "line11"), (12, "line12")]));
}

#[test]
fn text_file_lone_match_window_sizes_follow_the_formula() {
    let n: u64 = 8;
    for c in 0..4u64 {
        for l in 1..=n {
            let mut content = String::new();
            for j in 1..=n {
                if j == l {
                    content.push_str("needle\n");
                } else {
                    content.push_str(&format!("line{}\n", j));
                }
            }
            let records = search_text("a.txt", &content, &config("needle", false, c as usize));
            assert_eq!(records.len(), 1);
            let record = &records[0];
            assert_eq!(record.line_number, l);
            let expected_before = if c < l - 1 { c } else { l - 1 };
            let expected_after = if c < n - l { c } else { n - l };
            assert_eq!(record.context_before.len() as u64, expected_before);
            assert_eq!(record.context_after.len() as u64, expected_after);
            for (i, (number, text)) in record.context_before.iter().enumerate() {
                assert_eq!(*number, l - expected_before + i as u64);
                assert_eq!(text, &format!("line{}", number));
            }
            for (i, (number, text)) in record.context_after.iter().enumerate() {
                assert_eq!(*number, l + 1 + i as u64);
                assert_eq!(text, &format!("line{}", number));
            }
        }
    }
}

#[test]
fn text_file_and_document_give_the_same_window() {
    let content = "one\nneedle\nthree\nfour\nfive\n";
    let config = config("needle", false, 2);
    let text = search_text("x.txt", content, &config);
    let document = FileInput {
        entry: FileEntry { path: "x.pdf".to_string(), file_name: "x.pdf".to_string(), is_file: true },
        content: FileContent::Extracted(content.to_string()),
    };
    let from_document = search_files(&config, false, vec![document]).unwrap();
    assert_eq!(text.len(), 1);
    assert_eq!(from_document.len(), 1);
    assert_eq!(text[0].line_number, from_document[0].line_number);
    assert_eq!(text[0].line, from_document[0].line);
    assert_eq!(text[0].context_before, from_document[0].context_before);
    assert_eq!(text[0].context_after, from_document[0].context_after);
    assert_eq!(text[0].context_before, pairs(&[(1, "one")]));
    assert_eq!(text[0].context_after, pairs(&[(3, "three"), (4, "four")]));
}
