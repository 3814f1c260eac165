//! Filename filtering: which directory entries the walker hands on.

use vstd::prelude::*;

verus! {

/// `glob::Pattern`, a compiled glob pattern. Its inside is not looked at.
#[verifier::external_type_specification]
#[verifier::external_body]
pub struct ExGlobPattern(glob::Pattern);

/// `glob::PatternError`, why a glob pattern did not compile.
#[verifier::external_type_specification]
#[verifier::external_body]
pub struct ExGlobPatternError(glob::PatternError);

/// Whether `pattern` is a well-formed glob pattern, with the path separators
/// of the platform.
pub uninterp spec fn glob_valid(pattern: Seq<char>) -> bool;

/// The text a compiled glob pattern was built from.
pub uninterp spec fn glob_source(pattern: glob::Pattern) -> Seq<char>;

/// Whether the glob pattern `pattern` matches the whole of `name` under the
/// default match options and the path separators of the platform.
pub uninterp spec fn glob_accepts(pattern: Seq<char>, name: Seq<char>) -> bool;

/// Calls `glob::Pattern::new`. Whether a pattern compiles depends on its
/// text alone, and the compiled pattern keeps that text.
#[verifier::external_body]
fn compile_glob(pattern: &str) -> (r: Result<glob::Pattern, glob::PatternError>)
    ensures
        r is Ok <==> glob_valid(pattern@),
        r matches Ok(p) ==> glob_source(p) == pattern@,
{
    glob::Pattern::new(pattern)
}

/// Calls `glob::Pattern::matches`, which matches with the default options.
#[verifier::external_body]
fn glob_matches(pattern: &glob::Pattern, name: &str) -> (b: bool)
    ensures
        b == glob_accepts(glob_source(*pattern), name@),
{
    pattern.matches(name)
}

/// Whether one pattern selects a file name: the pattern is well-formed and
/// matches the name. A malformed pattern selects nothing.
pub open spec fn pattern_selects(pattern: Seq<char>, name: Seq<char>) -> bool {
    glob_valid(pattern) && glob_accepts(pattern, name)
}

/// Whether any of the patterns selects the file name.
pub open spec fn any_pattern_selects(patterns: Seq<String>, name: Seq<char>) -> bool {
    exists|i: int| 0 <= i < patterns.len() && pattern_selects(#[trigger] patterns[i]@, name)
}

/// Tests one pattern against a file name.
pub fn matches_pattern(pattern: &str, file_name: &str) -> (b: bool)
    ensures
        b == pattern_selects(pattern@, file_name@),
{
    match compile_glob(pattern) {
        Ok(compiled) => glob_matches(&compiled, file_name),
        Err(_) => false,
    }
}

/// Tests a file name against the configured patterns: the name is selected
/// if any pattern selects it.
pub fn name_selected(patterns: &Vec<String>, file_name: &str) -> (b: bool)
    ensures
        b == any_pattern_selects(patterns@, file_name@),
{
    let mut i: usize = 0;
    while i < patterns.len()
        invariant
            i <= patterns.len(),
            forall|k: int| 0 <= k < i ==> !pattern_selects(#[trigger] patterns[k]@, file_name@),
        decreases patterns.len() - i,
    {
        if matches_pattern(patterns[i].as_str(), file_name) {
            return true;
        }
        i += 1;
    }
    false
}

/// What the walker does with one directory entry.
#[derive(Debug, Clone, Copy, PartialEq, Eq, Structural)]
pub enum WalkDecision {
    /// Stop enumerating.
    Quit,
    /// Pass over the entry and go on.
    Skip,
    /// Hand the entry to the workers.
    Dispatch,
}

/// What the walker sees of one directory entry.
#[derive(Debug, Clone)]
pub struct FileEntry {
    pub path: String,
    pub file_name: String,
    pub is_file: bool,
}

/// The walker's rule for one entry, `None` standing for an entry that could
/// not be read: a set cancellation flag ends the walk; unreadable entries,
/// entries that are no files and files that no pattern selects are passed
/// over; the rest is handed on.
pub open spec fn walk_rule(cancelled: bool, entry: Option<FileEntry>, patterns: Seq<String>)
    -> WalkDecision {
    if cancelled {
        WalkDecision::Quit
    } else {
        match entry {
            None => WalkDecision::Skip,
            Some(e) => if e.is_file && any_pattern_selects(patterns, e.file_name@) {
                WalkDecision::Dispatch
            } else {
                WalkDecision::Skip
            },
        }
    }
}

/// Decides what the walker does with one entry.
pub fn visit_entry(cancelled: bool, entry: Option<&FileEntry>, patterns: &Vec<String>) -> (d:
    WalkDecision)
    ensures
        d == walk_rule(
            cancelled,
            match entry {
                Some(e) => Some(*e),
                None => None,
            },
            patterns@,
        ),
{
    if cancelled {
        return WalkDecision::Quit;
    }
    match entry {
        None => WalkDecision::Skip,
        Some(e) => {
            if !e.is_file {
                WalkDecision::Skip
            } else if name_selected(patterns, e.file_name.as_str()) {
                WalkDecision::Dispatch
            } else {
                WalkDecision::Skip
            }
        },
    }
}

impl WalkDecision {
    /// Whether the walk goes on after this decision was carried out;
    /// `delivered` says whether a dispatched entry reached the work queue. A
    /// closed queue ends the walk.
    pub fn proceeds(self, delivered: bool) -> (go_on: bool)
        ensures
            go_on == match self {
                WalkDecision::Quit => false,
                WalkDecision::Skip => true,
                WalkDecision::Dispatch => delivered,
            },
    {
        match self {
            WalkDecision::Quit => false,
            WalkDecision::Skip => true,
            WalkDecision::Dispatch => delivered,
        }
    }
}

/// Which entries the directory walk leaves out by itself.
#[derive(Debug, Clone, Copy, PartialEq, Eq, Structural)]
pub struct WalkOptions {
    /// Leave out hidden files and directories.
    pub skip_hidden: bool,
    /// Leave out what ignore files name.
    pub respect_ignore_files: bool,
    /// Leave out what version-control ignore files name.
    pub respect_git_ignore: bool,
}

impl WalkOptions {
    /// The options of a search: it looks at everything, hidden and ignored
    /// files included.
    pub fn search_everything() -> (options: WalkOptions)
        ensures
            !options.skip_hidden,
            !options.respect_ignore_files,
            !options.respect_git_ignore,
    {
        WalkOptions { skip_hidden: false, respect_ignore_files: false, respect_git_ignore: false }
    }
}

} // verus!
