use quicksearch::filter::{matches_pattern, name_selected, visit_entry, WalkDecision, WalkOptions};
use quicksearch::FileEntry;

fn patterns(list: &[&str]) -> Vec<String> {
    list.iter().map(|p| p.to_string()).collect()
}

fn entry(file_name: &str, is_file: bool) -> FileEntry {
    FileEntry { path: format!("dir/{}", file_name), file_name: file_name.to_string(), is_file }
}

#[test]
fn single_pattern_selects_only_its_extension() {
    let only_txt = patterns(&["*.txt"]);
    assert!(name_selected(&only_txt, "a.txt"));
    assert!(name_selected(&only_txt, ".txt"));
    assert!(!name_selected(&only_txt, "b.md"));
    assert!(!name_selected(&only_txt, "a.txt.bak"));
    assert!(!name_selected(&only_txt, "txt"));
}

#[test]
fn several_patterns_select_the_union() {
    let both = patterns(&["*.txt", "*.md"]);
    assert!(name_selected(&both, "a.txt"));
    assert!(name_selected(&both, "b.md"));
    assert!(!name_selected(&both, "c.rs"));
}

#[test]
fn no_pattern_selects_nothing() {
    assert!(!name_selected(&Vec::new(), "a.txt"));
}

#[test]
fn star_selects_every_name() {
    let all = patterns(&["*"]);
    assert!(name_selected(&all, "a.txt"));
    assert!(name_selected(&all, ".hidden"));
    assert!(name_selected(&all, ""));
}

#[test]
fn malformed_pattern_selects_nothing() {
    assert!(!matches_pattern("[", "["));
    assert!(!matches_pattern("a**", "a"));
    assert!(!matches_pattern("***", "a"));
    let mixed = patterns(&["[", "*.md"]);
    assert!(name_selected(&mixed, "b.md"));
    assert!(!name_selected(&mixed, "["));
}

#[test]
fn pattern_must_match_the_whole_name() {
    assert!(matches_pattern("c?t", "cat"));
    assert!(!matches_pattern("c?t", "cart"));
    assert!(matches_pattern("k[!e]tteh", "kitteh"));
    assert!(!matches_pattern("k[!e]tteh", "ketteh"));
    assert!(!matches_pattern("a.txt", "A.TXT"));
    assert!(!matches_pattern("txt", "a.txt"));
}

#[test]
fn walker_quits_once_cancelled() {
    let all = patterns(&["*"]);
    assert_eq!(visit_entry(true, Some(&entry("a.txt", true)), &all), WalkDecision::Quit);
    assert_eq!(visit_entry(true, None, &all), WalkDecision::Quit);
}

#[test]
fn walker_passes_over_what_it_cannot_search() {
    let only_txt = patterns(&["*.txt"]);
    assert_eq!(visit_entry(false, None, &only_txt), WalkDecision::Skip);
    assert_eq!(visit_entry(false, Some(&entry("sub.txt", false)), &only_txt), WalkDecision::Skip);
    assert_eq!(visit_entry(false, Some(&entry("b.md", true)), &only_txt), WalkDecision::Skip);
}

#[test]
fn walker_dispatches_selected_files() {
    let only_txt = patterns(&["*.txt"]);
    assert_eq!(visit_entry(false, Some(&entry("a.txt", true)), &only_txt), WalkDecision::Dispatch);
}

#[test]
fn walk_ends_when_the_queue_is_closed() {
    assert!(!WalkDecision::Quit.proceeds(true));
    assert!(WalkDecision::Skip.proceeds(false));
    assert!(WalkDecision::Dispatch.proceeds(true));
    assert!(!WalkDecision::Dispatch.proceeds(false));
}

#[test]
fn walk_looks_at_hidden_and_ignored_files() {
    let options = WalkOptions::search_everything();
    assert!(!options.skip_hidden);
    assert!(!options.respect_ignore_files);
    assert!(!options.respect_git_ignore);
}
