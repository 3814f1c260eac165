//! Transcripts of line-oriented scans and their replay through the context
//! machine.

use vstd::prelude::*;
use crate::sink::{result_views, ContextKind, ResultView, SearchResult, SearchSink, SinkModel};

verus! {

/// One event of the line-oriented scan of a file.
#[derive(Debug, Clone)]
pub enum ScanEvent {
    /// A line that the matcher accepts, with the terminator it has.
    Match { line_number: Option<u64>, bytes: Vec<u8> },
    /// A line near a match.
    Context { kind: ContextKind, bytes: Vec<u8> },
}

/// The mathematical value of a [`ScanEvent`].
pub enum EventView {
    Match { line_number: Option<u64>, bytes: Seq<u8> },
    Context { kind: ContextKind, bytes: Seq<u8> },
}

impl View for ScanEvent {
    type V = EventView;

    open spec fn view(&self) -> EventView {
        match *self {
            ScanEvent::Match { line_number, bytes } => EventView::Match {
                line_number,
                bytes: bytes@,
            },
            ScanEvent::Context { kind, bytes } => EventView::Context { kind, bytes: bytes@ },
        }
    }
}

/// The events of one scan in the order they were reported; `finished` says
/// whether the scan reached the end of the file.
#[derive(Debug, Clone)]
pub struct Transcript {
    pub events: Vec<ScanEvent>,
    pub finished: bool,
}

/// The views of a list of events.
pub open spec fn event_views(events: Seq<ScanEvent>) -> Seq<EventView> {
    Seq::new(events.len(), |i: int| events[i]@)
}

/// No record, or the one that was emitted.
pub open spec fn emitted(record: Option<ResultView>) -> Seq<ResultView> {
    match record {
        Some(r) => seq![r],
        None => Seq::empty(),
    }
}

/// The records a scan gives from `state` on: each match emits the match
/// pending before it; the end of a finished scan emits the last one. A
/// refused match emits the pending match and ends the scan; a scan that did
/// not finish leaves its last match unemitted.
pub open spec fn replay(state: SinkModel, events: Seq<EventView>, finished: bool) -> Seq<
    ResultView,
>
    decreases events.len(),
{
    if events.len() == 0 {
        if finished {
            emitted(state.finalized())
        } else {
            Seq::empty()
        }
    } else {
        match events[0] {
            EventView::Match { line_number, bytes } => if state.refuses(line_number, bytes) {
                emitted(state.finalized())
            } else {
                emitted(state.finalized()) + replay(
                    state.after_match(line_number, bytes),
                    events.drop_first(),
                    finished,
                )
            },
            EventView::Context { kind, bytes } => replay(
                state.after_context(kind, bytes),
                events.drop_first(),
                finished,
            ),
        }
    }
}

/// The records of the scan of one file with windows of `window` lines.
pub open spec fn scan_results(path: Seq<char>, window: nat, transcript: Transcript) -> Seq<
    ResultView,
> {
    replay(SinkModel::initial(path, window), event_views(transcript.events@), transcript.finished)
}

/// Appends an emitted record, if there is one.
fn collect(results: &mut Vec<SearchResult>, record: Option<SearchResult>)
    ensures
        result_views(final(results)@) == result_views(old(results)@) + emitted(
            match record {
                Some(r) => Some(r@),
                None => None,
            },
        ),
{
    match record {
        Some(r) => {
            results.push(r);
            assert(result_views(results@) =~= result_views(old(results)@) + seq![r@]);
        },
        None => {
            assert(result_views(results@) =~= result_views(old(results)@) + Seq::empty());
        },
    }
}

/// Runs the transcript of one file's scan through the context machine and
/// collects the records in the order they are emitted.
pub fn replay_scan(path: &str, context_lines: usize, transcript: &Transcript) -> (results: Vec<
    SearchResult,
>)
    ensures
        result_views(results@) == scan_results(path@, context_lines as nat, *transcript),
{
    let mut sink = SearchSink::new(path.to_owned(), context_lines);
    let mut results: Vec<SearchResult> = Vec::new();
    let ghost all = event_views(transcript.events@);
    let ghost goal = scan_results(path@, context_lines as nat, *transcript);
    let n = transcript.events.len();
    let mut i: usize = 0;
    assert(all.skip(0) =~= all);
    assert(result_views(results@) + goal =~= goal);
    while i < n
        invariant
            i <= n,
            n == transcript.events.len(),
            all == event_views(transcript.events@),
            goal == scan_results(path@, context_lines as nat, *transcript),
            sink@.wf(),
            result_views(results@) + replay(sink@, all.skip(i as int), transcript.finished)
                == goal,
        decreases n - i,
    {
        let ghost rest = all.skip(i as int);
        let ghost before = result_views(results@);
        let ghost state = sink@;
        assert(rest[0] == transcript.events[i as int]@);
        assert(rest.drop_first() =~= all.skip(i as int + 1));
        match &transcript.events[i] {
            ScanEvent::Match { line_number, bytes } => {
                match sink.matched(*line_number, bytes.as_slice()) {
                    Ok(record) => {
                        collect(&mut results, record);
                        assert(result_views(results@) + replay(
                            sink@,
                            rest.drop_first(),
                            transcript.finished,
                        ) =~= before + replay(state, rest, transcript.finished));
                    },
                    Err(_) => {
                        assert(sink@ == state);
                        let record = sink.finish();
                        collect(&mut results, record);
                        assert(result_views(results@) =~= before + replay(
                            state,
                            rest,
                            transcript.finished,
                        ));
                        return results;
                    },
                }
            },
            ScanEvent::Context { kind, bytes } => {
                sink.context(*kind, bytes.as_slice());
            },
        }
        i += 1;
    }
    assert(all.skip(n as int) =~= Seq::<EventView>::empty());
    if transcript.finished {
        let record = sink.finish();
        collect(&mut results, record);
    } else {
        assert(result_views(results@) + Seq::<ResultView>::empty() =~= result_views(results@));
    }
    results
}

} // verus!
