//! Laws of the search: what holds of every record, and the shape of the
//! window of a lone match.

use vstd::prelude::*;
use crate::document::{
    document_record,
    document_results,
    document_results_upto,
    line_hits,
    split_lines,
    trimmed_lines,
};
use crate::config::SearchConfig;
use crate::engine::{
    file_results,
    is_document_name,
    is_selected,
    search_outcome,
    search_results,
    FileContent,
    FileInput,
};
use crate::matcher::query_pattern;
use crate::scan::{emitted, event_views, replay, EventView};
use crate::document::{window_end, window_start};
use crate::sink::{number_after, number_before, ContextKind, ResultView, SinkModel};
use crate::text::line_text;

verus! {

/// A well-formed state stays well-formed when its pending match is emitted,
/// and the emitted record respects the window.
pub proof fn lemma_flush_keeps_window(state: SinkModel)
    requires
        state.wf(),
    ensures
        state.flushed().wf(),
        state.finalized() matches Some(r) ==> r.windowed(state.window),
{
}

/// A well-formed state stays well-formed over a match line.
pub proof fn lemma_match_keeps_wf(state: SinkModel, line_number: Option<u64>, bytes: Seq<u8>)
    requires
        state.wf(),
    ensures
        state.after_match(line_number, bytes).wf(),
{
}

/// A well-formed state stays well-formed over a context line.
pub proof fn lemma_context_keeps_wf(state: SinkModel, kind: ContextKind, bytes: Seq<u8>)
    requires
        state.wf(),
    ensures
        state.after_context(kind, bytes).wf(),
{
}

/// A match that arrives while an earlier match is pending cuts that match's
/// after-context short: the earlier match is emitted with just the
/// after-lines seen so far, however few, and the new match starts with none.
pub proof fn lemma_next_match_cuts_after_context(
    state: SinkModel,
    line_number: Option<u64>,
    bytes: Seq<u8>,
)
    requires
        state.wf(),
        state.pending is Some,
        !state.refuses(line_number, bytes),
    ensures
        state.finalized() is Some,
        state.finalized().unwrap().context_after.len() == state.after.len(),
        state.finalized().unwrap().context_after == number_after(
            state.after,
            state.pending.unwrap().line_number,
        ),
        state.after_match(line_number, bytes).after.len() == 0,
{
}

/// The state after a run of before-lines, fed in order.
pub open spec fn after_before_lines(state: SinkModel, lines: Seq<Seq<u8>>) -> SinkModel
    decreases lines.len(),
{
    if lines.len() == 0 {
        state
    } else {
        after_before_lines(state, lines.drop_last()).after_context(
            ContextKind::Before,
            lines.last(),
        )
    }
}

/// A run of before-lines that fits the window fills an empty before-buffer
/// with just those lines and changes nothing else.
proof fn lemma_before_lines_fill_buffer(state: SinkModel, lines: Seq<Seq<u8>>)
    requires
        state.before.len() == 0,
        lines.len() <= state.window,
        forall|j: int| 0 <= j < lines.len() ==> line_text(#[trigger] lines[j]) is Some,
    ensures
        after_before_lines(state, lines) == (SinkModel { before: line_texts(lines), ..state }),
    decreases lines.len(),
{
    if lines.len() == 0 {
        assert(line_texts(lines) =~= state.before);
        assert(state =~= (SinkModel { before: line_texts(lines), ..state }));
    } else {
        let shorter = lines.drop_last();
        assert forall|j: int| 0 <= j < shorter.len() implies line_text(
            #[trigger] shorter[j],
        ) is Some by {
            assert(shorter[j] == lines[j]);
        }
        lemma_before_lines_fill_buffer(state, shorter);
        let prev = after_before_lines(state, shorter);
        assert(line_text(lines[lines.len() - 1]) is Some);
        let text = line_text(lines.last()).unwrap();
        assert(prev.before.push(text) =~= line_texts(lines));
        assert(prev.after_context(ContextKind::Before, lines.last()) =~= (SinkModel {
            before: line_texts(lines),
            ..state
        }));
    }
}

/// The before-context of a match holds only lines seen since the last
/// match. A match that is taken empties the before-buffer; where the
/// before-lines `lines` follow it and then a match at `next_number`, that
/// match's before-context is made of exactly those lines, numbered up to
/// `next_number - 1`, and of none that came before the earlier match.
pub proof fn lemma_before_context_starts_anew(
    state: SinkModel,
    line_number: Option<u64>,
    bytes: Seq<u8>,
    lines: Seq<Seq<u8>>,
    next_number: u64,
    next_bytes: Seq<u8>,
)
    requires
        !state.refuses(line_number, bytes),
        lines.len() <= state.window,
        forall|j: int| 0 <= j < lines.len() ==> line_text(#[trigger] lines[j]) is Some,
        line_text(next_bytes) is Some,
        lines.len() < next_number,
        next_number + state.window <= u64::MAX,
    ensures
        state.after_match(line_number, bytes).before.len() == 0,
        after_before_lines(state.after_match(line_number, bytes), lines).after_match(
            Some(next_number),
            next_bytes,
        ).pending matches Some(p) && p.line_number == next_number && p.context_before
            == number_before(line_texts(lines), next_number),
{
    let taken = state.after_match(line_number, bytes);
    lemma_before_lines_fill_buffer(taken, lines);
}

/// Every record in the sequence respects a window of `window` lines.
pub open spec fn all_windowed(records: Seq<ResultView>, window: nat) -> bool {
    forall|i: int| 0 <= i < records.len() ==> (#[trigger] records[i]).windowed(window)
}

/// Two runs of windowed records, one after the other, are windowed.
proof fn lemma_windowed_concat(first: Seq<ResultView>, second: Seq<ResultView>, window: nat)
    requires
        all_windowed(first, window),
        all_windowed(second, window),
    ensures
        all_windowed(first + second, window),
{
    assert forall|i: int| 0 <= i < (first + second).len() implies (#[trigger] (first
        + second)[i]).windowed(window) by {
        if i < first.len() {
            assert((first + second)[i] == first[i]);
        } else {
            assert((first + second)[i] == second[i - first.len()]);
        }
    }
}

/// Every record of a scan respects the window: neither side of it holds
/// more than `window` lines, and its line numbers are contiguous with the
/// match.
pub proof fn lemma_scan_records_windowed(state: SinkModel, events: Seq<EventView>, finished: bool)
    requires
        state.wf(),
    ensures
        all_windowed(replay(state, events, finished), state.window),
    decreases events.len(),
{
    lemma_flush_keeps_window(state);
    let first = emitted(state.finalized());
    assert(all_windowed(first, state.window));
    if events.len() > 0 {
        match events[0] {
            EventView::Match { line_number, bytes } => {
                if !state.refuses(line_number, bytes) {
                    let next = state.after_match(line_number, bytes);
                    lemma_match_keeps_wf(state, line_number, bytes);
                    lemma_scan_records_windowed(next, events.drop_first(), finished);
                    lemma_windowed_concat(
                        first,
                        replay(next, events.drop_first(), finished),
                        state.window,
                    );
                }
            },
            EventView::Context { kind, bytes } => {
                lemma_context_keeps_wf(state, kind, bytes);
                lemma_scan_records_windowed(
                    state.after_context(kind, bytes),
                    events.drop_first(),
                    finished,
                );
            },
        }
    }
}

/// Every record of a document respects the window, provided its lines can
/// be numbered.
pub proof fn lemma_document_records_windowed(
    path: Seq<char>,
    lines: Seq<Seq<char>>,
    pattern: Seq<char>,
    window: nat,
    n: int,
)
    requires
        n <= lines.len() <= u64::MAX,
    ensures
        all_windowed(document_results_upto(path, lines, pattern, window, n), window),
    decreases n,
{
    if n > 0 {
        lemma_document_records_windowed(path, lines, pattern, window, n - 1);
        let earlier = document_results_upto(path, lines, pattern, window, n - 1);
        let record = document_record(path, lines, window, n - 1);
        assert(record.windowed(window));
        assert(all_windowed(seq![record], window));
        lemma_windowed_concat(earlier, seq![record], window);
        assert(earlier.push(record) =~= earlier + seq![record]);
    }
}

/// Whether the lines of a file's extracted text can be numbered.
pub open spec fn numberable(input: FileInput) -> bool {
    input.content matches FileContent::Extracted(text) ==> split_lines(text@).len() <= u64::MAX
}

/// Every record of a search respects the configured window: at most
/// `window` lines on either side of the match, numbered without a gap.
pub proof fn lemma_search_records_windowed(
    patterns: Seq<String>,
    pattern: Seq<char>,
    window: nat,
    files: Seq<FileInput>,
)
    requires
        forall|k: int| 0 <= k < files.len() ==> numberable(#[trigger] files[k]),
    ensures
        all_windowed(search_results(patterns, pattern, window, files), window),
    decreases files.len(),
{
    if files.len() > 0 {
        let last = files.last();
        assert(numberable(last));
        lemma_search_records_windowed(patterns, pattern, window, files.drop_last());
        match last.content {
            FileContent::Extracted(text) => {
                let lines = trimmed_lines(split_lines(text@));
                lemma_document_records_windowed(
                    last.entry.path@,
                    lines,
                    pattern,
                    window,
                    lines.len() as int,
                );
            },
            FileContent::Scanned(transcript) => {
                lemma_scan_records_windowed(
                    SinkModel::initial(last.entry.path@, window),
                    event_views(transcript.events@),
                    transcript.finished,
                );
            },
            FileContent::Unavailable => {},
        }
        assert(all_windowed(file_results(last, pattern, window), window));
        lemma_windowed_concat(
            search_results(patterns, pattern, window, files.drop_last()),
            file_results(last, pattern, window),
            window,
        );
    }
}

/// The records among the first `n` lines of a document with a lone match.
proof fn lemma_lone_match_upto(
    path: Seq<char>,
    lines: Seq<Seq<char>>,
    pattern: Seq<char>,
    window: nat,
    hit: int,
    n: int,
)
    requires
        0 <= hit < lines.len(),
        0 <= n <= lines.len(),
        line_hits(pattern, lines[hit]),
        forall|j: int| 0 <= j < lines.len() && j != hit ==> !line_hits(pattern, #[trigger] lines[j]),
    ensures
        document_results_upto(path, lines, pattern, window, n) == if n <= hit {
            Seq::<ResultView>::empty()
        } else {
            seq![document_record(path, lines, window, hit)]
        },
    decreases n,
{
    if n > 0 {
        lemma_lone_match_upto(path, lines, pattern, window, hit, n - 1);
        if n - 1 == hit {
            assert(Seq::<ResultView>::empty().push(document_record(path, lines, window, hit))
                =~= seq![document_record(path, lines, window, hit)]);
        }
    }
}

/// A document of `N` lines with a lone match at line `L` (index `hit`, so
/// `L = hit + 1`) and window `C` gives exactly one record, for line `L`,
/// with `min(C, L - 1)` lines before and `min(C, N - L)` lines after it,
/// numbered without a gap.
pub proof fn lemma_lone_match_in_document(
    path: Seq<char>,
    lines: Seq<Seq<char>>,
    pattern: Seq<char>,
    window: nat,
    hit: int,
)
    requires
        0 <= hit < lines.len() <= u64::MAX,
        line_hits(pattern, lines[hit]),
        forall|j: int| 0 <= j < lines.len() && j != hit ==> !line_hits(pattern, #[trigger] lines[j]),
    ensures
        document_results(path, lines, pattern, window) == seq![
            document_record(path, lines, window, hit),
        ],
        document_record(path, lines, window, hit).line_number == hit + 1,
        document_record(path, lines, window, hit).context_before.len() == (if window <= hit {
            window as int
        } else {
            hit
        }),
        document_record(path, lines, window, hit).context_after.len() == (if window
            <= lines.len() - (hit + 1) {
            window as int
        } else {
            lines.len() - (hit + 1)
        }),
        document_record(path, lines, window, hit).windowed(window),
{
    lemma_lone_match_upto(path, lines, pattern, window, hit, lines.len() as int);
}

/// The texts of raw lines: each decoded and trimmed.
pub open spec fn line_texts(raw: Seq<Seq<u8>>) -> Seq<Seq<char>> {
    Seq::new(raw.len(), |j: int| line_text(raw[j]).unwrap())
}

/// The event a scan reports for line index `j` around a lone match at index
/// `hit`: context before the match, the match, context after it.
pub open spec fn lone_match_event(raw: Seq<Seq<u8>>, hit: int, j: int) -> EventView {
    if j < hit {
        EventView::Context { kind: ContextKind::Before, bytes: raw[j] }
    } else if j == hit {
        EventView::Match { line_number: Some((hit + 1) as u64), bytes: raw[hit] }
    } else {
        EventView::Context { kind: ContextKind::After, bytes: raw[j] }
    }
}

/// The events of the scan of a file with a lone match at index `hit`: the
/// lines of the window around the match, in file order.
pub open spec fn lone_match_events(raw: Seq<Seq<u8>>, hit: int, window: nat) -> Seq<EventView> {
    let from = window_start(hit, window);
    let to = window_end(hit, window, raw.len() as int);
    Seq::new((to - from) as nat, |k: int| lone_match_event(raw, hit, from + k))
}

/// The texts of the raw lines with indices `from..to`.
spec fn texts_between(raw: Seq<Seq<u8>>, from: int, to: int) -> Seq<Seq<char>> {
    Seq::new((to - from) as nat, |i: int| line_text(raw[from + i]).unwrap())
}

/// The state of the machine after the first `k` events of a lone match's
/// scan.
spec fn lone_match_state(path: Seq<char>, raw: Seq<Seq<u8>>, hit: int, window: nat, k: int)
    -> SinkModel {
    let from = window_start(hit, window);
    let start = SinkModel::initial(path, window);
    if k <= hit - from {
        SinkModel { before: texts_between(raw, from, from + k), ..start }
    } else {
        let at_match = SinkModel { before: texts_between(raw, from, hit), ..start };
        SinkModel {
            after: texts_between(raw, hit + 1, from + k),
            pending: Some(at_match.pending_for((hit + 1) as u64, line_text(raw[hit]).unwrap())),
            ..start
        }
    }
}

/// Nothing is emitted during the scan of a lone match: after `k` events the
/// records still to come are all the records.
proof fn lemma_lone_match_prefix(
    path: Seq<char>,
    raw: Seq<Seq<u8>>,
    hit: int,
    window: nat,
    k: int,
)
    requires
        0 <= hit < raw.len(),
        hit + 1 + window <= u64::MAX,
        forall|j: int| 0 <= j < raw.len() ==> line_text(#[trigger] raw[j]) is Some,
        0 <= k <= lone_match_events(raw, hit, window).len(),
    ensures
        replay(
            SinkModel::initial(path, window),
            lone_match_events(raw, hit, window),
            true,
        ) == replay(
            lone_match_state(path, raw, hit, window, k),
            lone_match_events(raw, hit, window).skip(k),
            true,
        ),
    decreases k,
{
    let events = lone_match_events(raw, hit, window);
    let from = window_start(hit, window);
    let start = SinkModel::initial(path, window);
    if k == 0 {
        assert(events.skip(0) =~= events);
        assert(lone_match_state(path, raw, hit, window, 0) =~= start);
    } else {
        lemma_lone_match_prefix(path, raw, hit, window, k - 1);
        let prev = lone_match_state(path, raw, hit, window, k - 1);
        let next = lone_match_state(path, raw, hit, window, k);
        let rest = events.skip(k - 1);
        let j = from + k - 1;
        assert(rest[0] == lone_match_event(raw, hit, j));
        assert(rest.drop_first() =~= events.skip(k));
        assert(line_text(raw[j]) is Some);
        let text = line_text(raw[j]).unwrap();
        if j < hit {
            assert(prev.before.push(text) =~= texts_between(raw, from, from + k));
            assert(prev.after_context(ContextKind::Before, raw[j]) =~= next);
        } else if j == hit {
            assert(prev.in_range((hit + 1) as u64));
            assert(prev.after_match(Some((hit + 1) as u64), raw[hit]) =~= next);
            assert(emitted(prev.finalized()) + replay(next, events.skip(k), true) =~= replay(
                next,
                events.skip(k),
                true,
            ));
        } else {
            assert(prev.after.push(text) =~= texts_between(raw, hit + 1, from + k));
            assert(prev.after_context(ContextKind::After, raw[j]) =~= next);
        }
    }
}

/// The scan of a file of `N` lines with a lone match at line `L` (index
/// `hit`) and window `C` gives exactly one record, and it is the record the
/// slice of the lines around the match gives: line `L` with the
/// `min(C, L - 1)` lines before and the `min(C, N - L)` lines after it.
pub proof fn lemma_lone_match_in_scan(path: Seq<char>, raw: Seq<Seq<u8>>, hit: int, window: nat)
    requires
        0 <= hit < raw.len(),
        hit + 1 + window <= u64::MAX,
        forall|j: int| 0 <= j < raw.len() ==> line_text(#[trigger] raw[j]) is Some,
    ensures
        replay(SinkModel::initial(path, window), lone_match_events(raw, hit, window), true)
            == seq![document_record(path, line_texts(raw), window, hit)],
{
    let events = lone_match_events(raw, hit, window);
    let total = events.len() as int;
    let from = window_start(hit, window);
    lemma_lone_match_prefix(path, raw, hit, window, total);
    let last = lone_match_state(path, raw, hit, window, total);
    assert(events.skip(total) =~= Seq::<EventView>::empty());
    let record = last.finalized().unwrap();
    let expected = document_record(path, line_texts(raw), window, hit);
    assert(record.context_before =~= expected.context_before);
    assert(record.context_after =~= expected.context_after);
    assert(record =~= expected);
}

/// The records of a search over one selected file are the records of that
/// file.
proof fn lemma_search_of_one_file(config: SearchConfig, input: FileInput)
    requires
        is_selected(config.patterns@, input.entry),
    ensures
        search_outcome(config, false, seq![input]) == file_results(
            input,
            query_pattern(config.query@, config.use_regex),
            config.context_lines as nat,
        ),
{
    let files = seq![input];
    let pattern = query_pattern(config.query@, config.use_regex);
    let window = config.context_lines as nat;
    let none = Seq::<ResultView>::empty();
    assert(files.drop_last() =~= Seq::<FileInput>::empty());
    assert(files.last() == input);
    assert(search_results(config.patterns@, pattern, window, files.drop_last()) =~= none);
    assert(none + file_results(input, pattern, window) =~= file_results(input, pattern, window));
}

/// A search over one selected text file of `N` lines whose scan reports a
/// lone match at line `L` (index `hit`) with its window of `C` lines gives
/// exactly one record: for that file and line `L`, with the `min(C, L - 1)`
/// lines before and the `min(C, N - L)` lines after it, each with its own
/// number and trimmed text. This holds for lines that are UTF-8 and line
/// numbers that can be held.
pub proof fn lemma_lone_match_in_text_search(
    config: SearchConfig,
    input: FileInput,
    raw: Seq<Seq<u8>>,
    hit: int,
)
    requires
        is_selected(config.patterns@, input.entry),
        !is_document_name(input.entry.file_name@),
        input.content matches FileContent::Scanned(transcript) && transcript.finished
            && event_views(transcript.events@) == lone_match_events(
            raw,
            hit,
            config.context_lines as nat,
        ),
        0 <= hit < raw.len(),
        hit + 1 + config.context_lines <= u64::MAX,
        forall|j: int| 0 <= j < raw.len() ==> line_text(#[trigger] raw[j]) is Some,
    ensures
        search_outcome(config, false, seq![input]) == seq![
            document_record(
                input.entry.path@,
                line_texts(raw),
                config.context_lines as nat,
                hit,
            ),
        ],
        lone_match_shape(
            document_record(
                input.entry.path@,
                line_texts(raw),
                config.context_lines as nat,
                hit,
            ),
            line_texts(raw),
            config.context_lines as nat,
            hit,
        ),
{
    lemma_search_of_one_file(config, input);
    lemma_lone_match_in_scan(input.entry.path@, raw, hit, config.context_lines as nat);
    lemma_lone_match_shape(input.entry.path@, line_texts(raw), config.context_lines as nat, hit);
}

/// A search over one selected document of `N` lines with a lone match at
/// line `L` (index `hit`) gives exactly one record: for that document and
/// line `L`, with the `min(C, L - 1)` lines before and the `min(C, N - L)`
/// lines after it, each with its own number and trimmed text.
pub proof fn lemma_lone_match_in_document_search(
    config: SearchConfig,
    input: FileInput,
    hit: int,
)
    requires
        is_selected(config.patterns@, input.entry),
        is_document_name(input.entry.file_name@),
        input.content is Extracted,
        0 <= hit < trimmed_lines(split_lines(input.content->Extracted_0@)).len() <= u64::MAX,
        line_hits(
            query_pattern(config.query@, config.use_regex),
            trimmed_lines(split_lines(input.content->Extracted_0@))[hit],
        ),
        forall|j: int|
            0 <= j < trimmed_lines(split_lines(input.content->Extracted_0@)).len() && j != hit
                ==> !line_hits(
                query_pattern(config.query@, config.use_regex),
                #[trigger] trimmed_lines(split_lines(input.content->Extracted_0@))[j],
            ),
    ensures
        search_outcome(config, false, seq![input]) == seq![
            document_record(
                input.entry.path@,
                trimmed_lines(split_lines(input.content->Extracted_0@)),
                config.context_lines as nat,
                hit,
            ),
        ],
        lone_match_shape(
            document_record(
                input.entry.path@,
                trimmed_lines(split_lines(input.content->Extracted_0@)),
                config.context_lines as nat,
                hit,
            ),
            trimmed_lines(split_lines(input.content->Extracted_0@)),
            config.context_lines as nat,
            hit,
        ),
{
    let lines = trimmed_lines(split_lines(input.content->Extracted_0@));
    lemma_search_of_one_file(config, input);
    lemma_lone_match_in_document(
        input.entry.path@,
        lines,
        query_pattern(config.query@, config.use_regex),
        config.context_lines as nat,
        hit,
    );
    lemma_lone_match_shape(input.entry.path@, lines, config.context_lines as nat, hit);
}

/// The shape of the record of a lone match at line `L = hit + 1` of `N`
/// lines with window `C`: `min(C, L - 1)` lines before and `min(C, N - L)`
/// lines after the match, each with its own line number and text, so that
/// the numbers run without a gap on both sides of `L`.
pub open spec fn lone_match_shape(
    record: ResultView,
    lines: Seq<Seq<char>>,
    window: nat,
    hit: int,
) -> bool {
    let before = record.context_before;
    let after = record.context_after;
    &&& record.line_number == hit + 1
    &&& record.line == lines[hit]
    &&& before.len() == (if window <= hit {
        window as int
    } else {
        hit
    })
    &&& after.len() == (if window <= lines.len() - (hit + 1) {
        window as int
    } else {
        lines.len() - (hit + 1)
    })
    &&& forall|i: int|
        0 <= i < before.len() ==> #[trigger] before[i] == (
            (hit + 1 - before.len() + i) as u64,
            lines[hit - before.len() + i],
        )
    &&& forall|i: int|
        0 <= i < after.len() ==> #[trigger] after[i] == ((hit + 2 + i) as u64, lines[hit + 1 + i])
}

/// The record that the slice around a lone match gives has the shape of a
/// lone match.
proof fn lemma_lone_match_shape(path: Seq<char>, lines: Seq<Seq<char>>, window: nat, hit: int)
    requires
        0 <= hit < lines.len(),
        hit + 1 <= u64::MAX,
    ensures
        lone_match_shape(document_record(path, lines, window, hit), lines, window, hit),
{
}

/// The whole-text path and the line-by-line path agree on a lone match:
/// where the lines of the scan, decoded and trimmed, are the lines of the
/// document, the one record of the scan and the one record of the document
/// have the same line number, line, before-context and after-context; only
/// the path can differ.
pub proof fn lemma_scan_and_document_agree(
    scan_path: Seq<char>,
    document_path: Seq<char>,
    raw: Seq<Seq<u8>>,
    lines: Seq<Seq<char>>,
    pattern: Seq<char>,
    window: nat,
    hit: int,
)
    requires
        0 <= hit < raw.len() <= u64::MAX,
        hit + 1 + window <= u64::MAX,
        forall|j: int| 0 <= j < raw.len() ==> line_text(#[trigger] raw[j]) is Some,
        line_texts(raw) == lines,
        line_hits(pattern, lines[hit]),
        forall|j: int| 0 <= j < lines.len() && j != hit ==> !line_hits(pattern, #[trigger] lines[j]),
    ensures
        replay(SinkModel::initial(scan_path, window), lone_match_events(raw, hit, window), true).len()
            == 1,
        document_results(document_path, lines, pattern, window).len() == 1,
        ({
            let s = replay(
                SinkModel::initial(scan_path, window),
                lone_match_events(raw, hit, window),
                true,
            )[0];
            let d = document_results(document_path, lines, pattern, window)[0];
            &&& s.line_number == d.line_number
            &&& s.line == d.line
            &&& s.context_before == d.context_before
            &&& s.context_after == d.context_after
            &&& s.path == scan_path
            &&& d.path == document_path
        }),
{
    lemma_lone_match_in_scan(scan_path, raw, hit, window);
    assert(lines.len() == raw.len());
    lemma_lone_match_in_document(document_path, lines, pattern, window, hit);
}

} // verus!
