//! Search configuration and the pure decisions derived from it.

use vstd::prelude::*;
use vstd::string::StrSliceExecFns;
use crate::sink::texts;
use crate::text::{trim_str, trimmed};

verus! {

/// The arguments of one invocation, as plain values.
#[derive(Debug, Clone)]
pub struct Args {
    /// Launch interactive mode.
    pub interactive: bool,
    /// Text to search for.
    pub text: Option<String>,
    /// File patterns to search in, separated by commas.
    pub pattern: String,
    /// Number of worker threads, 0 for automatic.
    pub workers: usize,
    /// Show error messages of files that could not be searched.
    pub verbose: bool,
    /// Paths to search in.
    pub paths: Vec<String>,
    /// Number of context lines before and after matches.
    pub context: usize,
    /// Treat the text as a regular expression.
    pub use_regex: bool,
}

/// What one search runs with. It does not change while the search runs.
#[derive(Debug, Clone)]
pub struct SearchConfig {
    /// Root paths; the first one is searched.
    pub paths: Vec<String>,
    /// Filename patterns; a file is searched if any of them selects it.
    pub patterns: Vec<String>,
    /// The text or regular expression to look for.
    pub query: String,
    /// Report files that could not be searched.
    pub verbose: bool,
    /// Lines of context before and after each match.
    pub context_lines: usize,
    /// Search files with binary content too.
    pub search_binary: bool,
    /// Number of workers, 0 for automatic.
    pub num_workers: usize,
    /// Treat the query as a regular expression.
    pub use_regex: bool,
}

/// Number of workers used when neither the configuration nor the runtime
/// gives one.
pub const FALLBACK_WORKERS: usize = 2;

/// The worker count a search runs with, always at least one: the configured
/// value, or, where that is zero, the detected parallelism, or the fallback
/// where nothing, or zero, was detected.
pub open spec fn resolved_workers(configured: usize, detected: Option<usize>) -> usize {
    if configured != 0 {
        configured
    } else {
        match detected {
            Some(n) => if n != 0 {
                n
            } else {
                FALLBACK_WORKERS
            },
            None => FALLBACK_WORKERS,
        }
    }
}

/// Resolves the configured worker count ("0 = automatic") into the positive
/// count to run with.
pub fn resolve_worker_count(configured: usize, detected: Option<usize>) -> (n: usize)
    ensures
        n == resolved_workers(configured, detected),
        n >= 1,
{
    if configured != 0 {
        configured
    } else {
        match detected {
            Some(n) => if n != 0 {
                n
            } else {
                FALLBACK_WORKERS
            },
            None => FALLBACK_WORKERS,
        }
    }
}

/// The pieces of a text between its commas, read character by character: a
/// comma starts a new piece, any other character joins the last piece.
pub open spec fn split_commas(text: Seq<char>) -> Seq<Seq<char>>
    decreases text.len(),
{
    if text.len() == 0 {
        seq![Seq::empty()]
    } else {
        let earlier = split_commas(text.drop_last());
        if text.last() == ',' {
            earlier.push(Seq::empty())
        } else {
            earlier.drop_last().push(earlier.last().push(text.last()))
        }
    }
}

/// The patterns of a comma-separated list: its pieces, each trimmed.
pub open spec fn pattern_list(text: Seq<char>) -> Seq<Seq<char>> {
    let pieces = split_commas(text);
    Seq::new(pieces.len(), |i: int| trimmed(pieces[i]))
}

/// Splits a comma-separated pattern list into its patterns, each trimmed.
pub fn split_patterns(list: &str) -> (patterns: Vec<String>)
    ensures
        texts(patterns@) == pattern_list(list@),
{
    let n = list.unicode_len();
    let mut patterns: Vec<String> = Vec::new();
    let mut start: usize = 0;
    let mut i: usize = 0;
    let ghost mut done: Seq<Seq<char>> = Seq::empty();
    proof {
        assert(list@.take(0) =~= Seq::<char>::empty());
        assert(split_commas(list@.take(0)) =~= done.push(list@.subrange(0, 0)));
    }
    while i < n
        invariant
            start <= i <= n,
            n == list@.len(),
            patterns.len() == done.len(),
            forall|k: int| 0 <= k < done.len() ==> (#[trigger] patterns[k])@ == trimmed(done[k]),
            split_commas(list@.take(i as int)) == done.push(
                list@.subrange(start as int, i as int),
            ),
        decreases n - i,
    {
        let c = list.get_char(i);
        proof {
            let next = list@.take(i as int + 1);
            assert(next.drop_last() =~= list@.take(i as int));
            assert(next.last() == c);
        }
        if c == ',' {
            let piece = trim_str(list.substring_char(start, i)).to_owned();
            patterns.push(piece);
            proof {
                done = done.push(list@.subrange(start as int, i as int));
                assert(list@.subrange(i as int + 1, i as int + 1) =~= Seq::<char>::empty());
            }
            start = i + 1;
        } else {
            proof {
                let grown = done.push(list@.subrange(start as int, i as int));
                assert(grown.drop_last() =~= done);
                assert(list@.subrange(start as int, i as int).push(c) =~= list@.subrange(
                    start as int,
                    i as int + 1,
                ));
            }
        }
        i += 1;
    }
    let piece = trim_str(list.substring_char(start, n)).to_owned();
    patterns.push(piece);
    proof {
        assert(list@.take(n as int) =~= list@);
        assert(texts(patterns@) =~= pattern_list(list@));
    }
    patterns
}

/// Copies a list of strings.
fn clone_strings(items: &Vec<String>) -> (out: Vec<String>)
    ensures
        texts(out@) == texts(items@),
{
    let mut out: Vec<String> = Vec::new();
    let mut i: usize = 0;
    while i < items.len()
        invariant
            i <= items.len(),
            out.len() == i,
            forall|k: int| 0 <= k < i ==> (#[trigger] out[k])@ == items[k]@,
        decreases items.len() - i,
    {
        out.push(items[i].clone());
        i += 1;
    }
    assert(texts(out@) =~= texts(items@));
    out
}

impl Default for SearchConfig {
    /// No paths, no patterns, an empty literal query, no context, automatic
    /// worker count, binary files skipped, quiet.
    fn default() -> (config: SearchConfig)
        ensures
            config.paths@.len() == 0,
            config.patterns@.len() == 0,
            config.query@.len() == 0,
            !config.verbose,
            config.context_lines == 0,
            !config.search_binary,
            config.num_workers == 0,
            !config.use_regex,
    {
        SearchConfig {
            paths: Vec::new(),
            patterns: Vec::new(),
            query: String::new(),
            num_workers: 0,
            context_lines: 0,
            search_binary: false,
            verbose: false,
            use_regex: false,
        }
    }
}

impl SearchConfig {
    /// The root a search walks: the first configured path, or the current
    /// directory where none is configured.
    pub open spec fn search_root(self) -> Seq<char> {
        if self.paths@.len() > 0 {
            self.paths@[0]@
        } else {
            seq!['.']
        }
    }

    /// The root a search walks.
    pub fn get_search_path(&self) -> (root: String)
        ensures
            root@ == self.search_root(),
    {
        if self.paths.len() > 0 {
            self.paths[0].clone()
        } else {
            proof {
                reveal_strlit(".");
                assert("."@ =~= seq!['.']);
            }
            ".".to_owned()
        }
    }

    /// The configuration for an invocation that looks for `text`: paths,
    /// verbosity, context, worker count and regex mode come from the
    /// arguments, the pattern argument is read as a comma-separated list,
    /// and binary files are skipped.
    pub fn from_args(args: &Args, text: String) -> (config: SearchConfig)
        ensures
            texts(config.paths@) == texts(args.paths@),
            texts(config.patterns@) == pattern_list(args.pattern@),
            config.query@ == text@,
            config.verbose == args.verbose,
            config.context_lines == args.context,
            !config.search_binary,
            config.num_workers == args.workers,
            config.use_regex == args.use_regex,
    {
        SearchConfig {
            paths: clone_strings(&args.paths),
            patterns: split_patterns(args.pattern.as_str()),
            query: text,
            verbose: args.verbose,
            context_lines: args.context,
            search_binary: false,
            num_workers: args.workers,
            use_regex: args.use_regex,
        }
    }
}

} // verus!
