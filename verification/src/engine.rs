//! The search itself: routing of file entries, the records of one file, and
//! the sequence of records of a whole search.

use vstd::prelude::*;
use vstd::string::StrSliceExecFns;
use crate::config::SearchConfig;
use crate::document::{document_results, search_document, split_lines, trimmed_lines};
use crate::filter::{visit_entry, walk_rule, FileEntry, WalkDecision};
use crate::matcher::{build_matcher, query_pattern, regex_compiles, ConfigError, QueryMatcher};
use crate::scan::{replay_scan, scan_results, Transcript};
use crate::sink::{result_views, ResultView, SearchResult};

verus! {

/// Whether a file name has the extension of a document container: it ends
/// in `.pdf` and has a stem before that.
pub open spec fn is_document_name(name: Seq<char>) -> bool {
    name.len() >= 5 && name.subrange(name.len() - 4, name.len() as int) == seq![
        '.',
        'p',
        'd',
        'f',
    ]
}

/// Tests a file name for the extension of a document container.
pub fn is_document(file_name: &str) -> (b: bool)
    ensures
        b == is_document_name(file_name@),
{
    let n = file_name.unicode_len();
    if n < 5 {
        return false;
    }
    let b = file_name.get_char(n - 4) == '.' && file_name.get_char(n - 3) == 'p'
        && file_name.get_char(n - 2) == 'd' && file_name.get_char(n - 1) == 'f';
    proof {
        let tail = file_name@.subrange(n - 4, n as int);
        if b {
            assert(tail =~= seq!['.', 'p', 'd', 'f']);
        } else {
            assert(tail[0] == file_name@[n - 4]);
            assert(tail[1] == file_name@[n - 3]);
            assert(tail[2] == file_name@[n - 2]);
            assert(tail[3] == file_name@[n - 1]);
        }
    }
    b
}

/// What a worker does with one entry from the work queue.
#[derive(Debug, Clone, Copy, PartialEq, Eq, Structural)]
pub enum Route {
    /// Leave the loop: the search was cancelled.
    Stop,
    /// Extract the document's text and search it as a whole.
    Document,
    /// Scan the file line by line.
    Text,
    /// Pass over the entry.
    Skip,
}

/// The worker's rule for one entry: a set cancellation flag ends the loop, a
/// document container goes to extraction, any other regular file is
/// scanned, and what is no regular file is passed over.
pub open spec fn route_rule(cancelled: bool, entry: FileEntry) -> Route {
    if cancelled {
        Route::Stop
    } else if is_document_name(entry.file_name@) {
        Route::Document
    } else if entry.is_file {
        Route::Text
    } else {
        Route::Skip
    }
}

/// Decides what a worker does with one entry.
pub fn route_entry(cancelled: bool, entry: &FileEntry) -> (route: Route)
    ensures
        route == route_rule(cancelled, *entry),
{
    if cancelled {
        Route::Stop
    } else if is_document(entry.file_name.as_str()) {
        Route::Document
    } else if entry.is_file {
        Route::Text
    } else {
        Route::Skip
    }
}

/// How a file is scanned.
#[derive(Debug, Clone, Copy, PartialEq, Eq, Structural)]
pub struct ScanOptions {
    /// Give up on a file at its first NUL byte.
    pub stop_at_nul: bool,
    /// Context lines reported before a match.
    pub before_context: usize,
    /// Context lines reported after a match.
    pub after_context: usize,
}

/// The scan options of a search: binary content ends a scan unless binary
/// search is asked for, and the window is the same on both sides.
pub fn scan_options(config: &SearchConfig) -> (options: ScanOptions)
    ensures
        options.stop_at_nul == !config.search_binary,
        options.before_context == config.context_lines,
        options.after_context == config.context_lines,
{
    ScanOptions {
        stop_at_nul: !config.search_binary,
        before_context: config.context_lines,
        after_context: config.context_lines,
    }
}

/// What reading one file gave.
#[derive(Debug, Clone)]
pub enum FileContent {
    /// The events of a line-oriented scan.
    Scanned(Transcript),
    /// The text extracted from a document container.
    Extracted(String),
    /// Nothing: the file could not be read, or extraction failed.
    Unavailable,
}

/// One file of a search: its entry and what reading it gave.
#[derive(Debug, Clone)]
pub struct FileInput {
    pub entry: FileEntry,
    pub content: FileContent,
}

/// The records of one file: those of its extracted text for a document,
/// those of its scan for any other regular file, none where the content is
/// not of the kind its route asks for.
pub open spec fn file_results(input: FileInput, pattern: Seq<char>, window: nat) -> Seq<
    ResultView,
> {
    match route_rule(false, input.entry) {
        Route::Document => match input.content {
            FileContent::Extracted(text) => document_results(
                input.entry.path@,
                trimmed_lines(split_lines(text@)),
                pattern,
                window,
            ),
            _ => Seq::empty(),
        },
        Route::Text => match input.content {
            FileContent::Scanned(transcript) => scan_results(input.entry.path@, window, transcript),
            _ => Seq::empty(),
        },
        _ => Seq::empty(),
    }
}

/// Computes the records of one file.
pub fn search_file(
    matcher: &QueryMatcher,
    context_lines: usize,
    input: &FileInput,
) -> (results: Vec<SearchResult>)
    ensures
        result_views(results@) == file_results(
            *input,
            matcher.pattern(),
            context_lines as nat,
        ),
{
    let none: Vec<SearchResult> = Vec::new();
    assert(result_views(none@) =~= Seq::<ResultView>::empty());
    match route_entry(false, &input.entry) {
        Route::Document => match &input.content {
            FileContent::Extracted(text) => search_document(
                text.as_str(),
                matcher,
                context_lines,
                input.entry.path.as_str(),
            ),
            _ => none,
        },
        Route::Text => match &input.content {
            FileContent::Scanned(transcript) => replay_scan(
                input.entry.path.as_str(),
                context_lines,
                transcript,
            ),
            _ => none,
        },
        _ => none,
    }
}

/// Whether the walker of a running search hands an entry on to the workers.
pub open spec fn is_selected(patterns: Seq<String>, entry: FileEntry) -> bool {
    walk_rule(false, Some(entry), patterns) == WalkDecision::Dispatch
}

/// The records of the files in the order of the files: each selected file
/// contributes its records, the others none.
pub open spec fn search_results(
    patterns: Seq<String>,
    pattern: Seq<char>,
    window: nat,
    files: Seq<FileInput>,
) -> Seq<ResultView>
    decreases files.len(),
{
    if files.len() == 0 {
        Seq::empty()
    } else {
        let earlier = search_results(patterns, pattern, window, files.drop_last());
        if is_selected(patterns, files.last().entry) {
            earlier + file_results(files.last(), pattern, window)
        } else {
            earlier
        }
    }
}

/// Whether a search can start: its query compiles.
pub open spec fn search_starts(config: SearchConfig) -> bool {
    regex_compiles(query_pattern(config.query@, config.use_regex))
}

/// The records of a whole search: none where it was cancelled before it
/// began, else those of the files.
pub open spec fn search_outcome(config: SearchConfig, cancelled: bool, files: Seq<FileInput>)
    -> Seq<ResultView> {
    if cancelled {
        Seq::empty()
    } else {
        search_results(
            config.patterns@,
            query_pattern(config.query@, config.use_regex),
            config.context_lines as nat,
            files,
        )
    }
}

/// The records of two runs of files, one after the other, are the records
/// of the first run followed by those of the second.
pub proof fn lemma_search_results_concat(
    patterns: Seq<String>,
    pattern: Seq<char>,
    window: nat,
    first: Seq<FileInput>,
    second: Seq<FileInput>,
)
    ensures
        search_results(patterns, pattern, window, first + second) == search_results(
            patterns,
            pattern,
            window,
            first,
        ) + search_results(patterns, pattern, window, second),
    decreases second.len(),
{
    if second.len() == 0 {
        assert(first + second =~= first);
        assert(search_results(patterns, pattern, window, first) + Seq::<ResultView>::empty()
            =~= search_results(patterns, pattern, window, first));
    } else {
        let all = first + second;
        assert(all.drop_last() =~= first + second.drop_last());
        assert(all.last() == second.last());
        lemma_search_results_concat(patterns, pattern, window, first, second.drop_last());
        let a = search_results(patterns, pattern, window, first);
        let b = search_results(patterns, pattern, window, second.drop_last());
        let c = file_results(second.last(), pattern, window);
        assert((a + b) + c =~= a + (b + c));
    }
}

/// The records of the files from index `k` on start with those of file `k`.
proof fn lemma_search_results_step(
    patterns: Seq<String>,
    pattern: Seq<char>,
    window: nat,
    files: Seq<FileInput>,
    k: int,
)
    requires
        0 <= k < files.len(),
    ensures
        search_results(patterns, pattern, window, files.skip(k)) == (if is_selected(
            patterns,
            files[k].entry,
        ) {
            file_results(files[k], pattern, window)
        } else {
            Seq::empty()
        }) + search_results(patterns, pattern, window, files.skip(k + 1)),
{
    let head = seq![files[k]];
    assert(files.skip(k) =~= head + files.skip(k + 1));
    lemma_search_results_concat(patterns, pattern, window, head, files.skip(k + 1));
    assert(head.drop_last() =~= Seq::<FileInput>::empty());
    assert(head.last() == files[k]);
    let none = Seq::<ResultView>::empty();
    let one = file_results(files[k], pattern, window);
    let rest = search_results(patterns, pattern, window, files.skip(k + 1));
    assert(search_results(patterns, pattern, window, head.drop_last()) =~= none);
    assert(none + one =~= one);
    assert(search_results(patterns, pattern, window, head) =~= if is_selected(
        patterns,
        files[k].entry,
    ) {
        one
    } else {
        none
    });
    assert(none + rest =~= rest);
}

/// The records of a search as a sequence that is read once, front to back.
/// The records of a file are computed when the sequence reaches it.
pub struct ResultStream {
    matcher: QueryMatcher,
    patterns: Vec<String>,
    context_lines: usize,
    files: Vec<FileInput>,
    next_file: usize,
    ready: Vec<SearchResult>,
}

impl ResultStream {
    /// The stream's bookkeeping is consistent.
    pub closed spec fn wf(&self) -> bool {
        self.next_file <= self.files.len()
    }

    /// The records the stream has yet to yield, in order.
    pub closed spec fn remaining(&self) -> Seq<ResultView> {
        result_views(self.ready@) + search_results(
            self.patterns@,
            self.matcher.pattern(),
            self.context_lines as nat,
            self.files@.skip(self.next_file as int),
        )
    }

    /// Yields the next record, or `None` once all were yielded.
    pub fn next(&mut self) -> (record: Option<SearchResult>)
        requires
            old(self).wf(),
        ensures
            final(self).wf(),
            match record {
                Some(r) => old(self).remaining().len() > 0 && r@ == old(self).remaining()[0]
                    && final(self).remaining() == old(self).remaining().drop_first(),
                None => old(self).remaining().len() == 0 && final(self).remaining().len() == 0,
            },
    {
        while self.ready.len() == 0 && self.next_file < self.files.len()
            invariant
                self.wf(),
                self.remaining() == old(self).remaining(),
            decreases self.files.len() - self.next_file,
        {
            let ghost k = self.next_file as int;
            proof {
                lemma_search_results_step(
                    self.patterns@,
                    self.matcher.pattern(),
                    self.context_lines as nat,
                    self.files@,
                    k,
                );
                assert(result_views(self.ready@) =~= Seq::<ResultView>::empty());
            }
            let ghost rest = search_results(
                self.patterns@,
                self.matcher.pattern(),
                self.context_lines as nat,
                self.files@.skip(k + 1),
            );
            let entry = &self.files[self.next_file].entry;
            if visit_entry(false, Some(entry), &self.patterns) == WalkDecision::Dispatch {
                let found = search_file(
                    &self.matcher,
                    self.context_lines,
                    &self.files[self.next_file],
                );
                self.ready = found;
            }
            self.next_file = self.next_file + 1;
            assert(self.remaining() =~= result_views(self.ready@) + rest);
        }
        if self.ready.len() == 0 {
            proof {
                assert(self.files@.skip(self.next_file as int) =~= Seq::<FileInput>::empty());
                assert(result_views(self.ready@) =~= Seq::<ResultView>::empty());
            }
            None
        } else {
            let ghost before = self.ready@;
            let record = self.ready.remove(0);
            proof {
                assert(result_views(self.ready@) =~= result_views(before).drop_first());
                assert(result_views(before)[0] == record@);
                let later = search_results(
                    self.patterns@,
                    self.matcher.pattern(),
                    self.context_lines as nat,
                    self.files@.skip(self.next_file as int),
                );
                assert((result_views(before) + later).drop_first() =~= result_views(
                    before,
                ).drop_first() + later);
            }
            Some(record)
        }
    }
}

/// Copies the patterns of a configuration.
fn copy_patterns(patterns: &Vec<String>) -> (out: Vec<String>)
    ensures
        out@ == patterns@,
{
    let mut out: Vec<String> = Vec::new();
    let mut i: usize = 0;
    while i < patterns.len()
        invariant
            i <= patterns.len(),
            out@ == patterns@.take(i as int),
        decreases patterns.len() - i,
    {
        out.push(patterns[i].clone());
        assert(patterns@.take(i as int).push(patterns@[i as int]) =~= patterns@.take(
            i as int + 1,
        ));
        i += 1;
    }
    assert(patterns@.take(patterns.len() as int) =~= patterns@);
    out
}

/// Starts a search over the given files and hands back its records as a
/// sequence to be read at the caller's pace. The search fails before any
/// file is looked at where the query does not compile. `cancelled` is the
/// state of the cancellation flag as the search begins: a search that is
/// cancelled by then yields nothing.
pub fn search(config: &SearchConfig, cancelled: bool, files: Vec<FileInput>) -> (r: Result<
    ResultStream,
    ConfigError,
>)
    ensures
        r is Ok <==> search_starts(*config),
        r matches Ok(stream) ==> stream.wf() && stream.remaining() == search_outcome(
            *config,
            cancelled,
            files@,
        ),
        r matches Err(e) ==> e is InvalidPattern,
{
    let matcher = match build_matcher(config.query.as_str(), config.use_regex) {
        Ok(matcher) => matcher,
        Err(e) => {
            return Err(e);
        },
    };
    let next_file = if cancelled {
        files.len()
    } else {
        0
    };
    let stream = ResultStream {
        matcher,
        patterns: copy_patterns(&config.patterns),
        context_lines: config.context_lines,
        files,
        next_file,
        ready: Vec::new(),
    };
    proof {
        assert(result_views(stream.ready@) =~= Seq::<ResultView>::empty());
        assert(files@.skip(files@.len() as int) =~= Seq::<FileInput>::empty());
        assert(files@.skip(0) =~= files@);
        assert(stream.remaining() =~= search_outcome(*config, cancelled, files@));
    }
    Ok(stream)
}

/// Runs a search over the given files to its end and returns all its
/// records: what [`search`] yields, read to the end.
pub fn search_files(config: &SearchConfig, cancelled: bool, files: Vec<FileInput>) -> (r: Result<
    Vec<SearchResult>,
    ConfigError,
>)
    ensures
        r is Ok <==> search_starts(*config),
        r matches Ok(results) ==> result_views(results@) == search_outcome(
            *config,
            cancelled,
            files@,
        ),
        r matches Err(e) ==> e is InvalidPattern,
{
    let mut stream = match search(config, cancelled, files) {
        Ok(stream) => stream,
        Err(e) => {
            return Err(e);
        },
    };
    let ghost goal = stream.remaining();
    let mut results: Vec<SearchResult> = Vec::new();
    assert(result_views(results@) + goal =~= goal);
    loop
        invariant
            stream.wf(),
            result_views(results@) + stream.remaining() == goal,
        ensures
            result_views(results@) == goal,
        decreases stream.remaining().len(),
    {
        let ghost before = result_views(results@);
        let ghost left = stream.remaining();
        match stream.next() {
            Some(record) => {
                results.push(record);
                assert(result_views(results@) =~= before.push(record@));
                assert(before.push(left[0]) + left.drop_first() =~= before + left);
            },
            None => {
                assert(before + left =~= before);
                break ;
            },
        }
    }
    Ok(results)
}

/// The later a search is cancelled, the more it has found: the records of
/// the first `earlier` files are the first records of the first `later`
/// files, so cancelling sooner never gives more records.
pub proof fn lemma_cancelling_sooner_finds_no_more(
    patterns: Seq<String>,
    pattern: Seq<char>,
    window: nat,
    files: Seq<FileInput>,
    earlier: int,
    later: int,
)
    requires
        0 <= earlier <= later <= files.len(),
    ensures
        search_results(patterns, pattern, window, files.take(earlier)).is_prefix_of(
            search_results(patterns, pattern, window, files.take(later)),
        ),
        search_results(patterns, pattern, window, files.take(earlier)).len() <= search_results(
            patterns,
            pattern,
            window,
            files.take(later),
        ).len(),
{
    let head = files.take(earlier);
    let more = files.subrange(earlier, later);
    assert(files.take(later) =~= head + more);
    lemma_search_results_concat(patterns, pattern, window, head, more);
    let a = search_results(patterns, pattern, window, head);
    let b = search_results(patterns, pattern, window, more);
    assert((a + b).subrange(0, a.len() as int) =~= a);
}

/// What reading a sequence of records front to back, one at a time, until
/// none is left, collects.
pub open spec fn read_to_end(records: Seq<ResultView>) -> Seq<ResultView>
    decreases records.len(),
{
    if records.len() == 0 {
        Seq::empty()
    } else {
        seq![records[0]] + read_to_end(records.drop_first())
    }
}

/// Reading the sequence of a search to its end gives every record, in
/// order: the list that [`search_files`] returns is the sequence that
/// [`search`] hands back, read to the end.
pub proof fn lemma_read_to_end_gives_all(config: SearchConfig, cancelled: bool, files: Seq<FileInput>)
    ensures
        read_to_end(search_outcome(config, cancelled, files)) == search_outcome(
            config,
            cancelled,
            files,
        ),
{
    lemma_read_to_end(search_outcome(config, cancelled, files));
}

/// Reading any sequence to its end gives the sequence.
proof fn lemma_read_to_end(records: Seq<ResultView>)
    ensures
        read_to_end(records) == records,
    decreases records.len(),
{
    if records.len() > 0 {
        lemma_read_to_end(records.drop_first());
        assert(seq![records[0]] + records.drop_first() =~= records);
    }
}

} // verus!
