//! The per-file context state machine: it turns the stream of match and
//! context lines of one file into result records with bounded windows of
//! surrounding lines.

use vstd::prelude::*;
use crate::text::{decode_line, line_text};

verus! {

/// One matching line with its window of surrounding lines.
#[derive(Debug, Clone)]
pub struct SearchResult {
    pub path: String,
    pub line_number: u64,
    pub line: String,
    pub context_before: Vec<(u64, String)>,
    pub context_after: Vec<(u64, String)>,
}

/// The mathematical value of a [`SearchResult`].
#[verifier::ext_equal]
pub struct ResultView {
    pub path: Seq<char>,
    pub line_number: u64,
    pub line: Seq<char>,
    pub context_before: Seq<(u64, Seq<char>)>,
    pub context_after: Seq<(u64, Seq<char>)>,
}

impl ResultView {
    /// The record respects a window of `window` lines: neither side holds
    /// more, the line numbers run without a gap up to the match and on from
    /// it, and they start at 1 or later.
    pub open spec fn windowed(self, window: nat) -> bool {
        &&& self.context_before.len() <= window
        &&& self.context_before.len() < self.line_number
        &&& self.context_after.len() <= window
        &&& forall|i: int|
            0 <= i < self.context_before.len() ==> (#[trigger] self.context_before[i]).0 + (
            self.context_before.len() - i) == self.line_number
        &&& forall|i: int|
            0 <= i < self.context_after.len() ==> (#[trigger] self.context_after[i]).0
                == self.line_number + i + 1
    }
}

/// The numbered lines of a context window as plain values.
pub open spec fn numbered_view(lines: Seq<(u64, String)>) -> Seq<(u64, Seq<char>)> {
    Seq::new(lines.len(), |i: int| (lines[i].0, lines[i].1@))
}

/// The texts of a buffer of lines as plain values.
pub open spec fn texts(lines: Seq<String>) -> Seq<Seq<char>> {
    Seq::new(lines.len(), |i: int| lines[i]@)
}

impl View for SearchResult {
    type V = ResultView;

    open spec fn view(&self) -> ResultView {
        ResultView {
            path: self.path@,
            line_number: self.line_number,
            line: self.line@,
            context_before: numbered_view(self.context_before@),
            context_after: numbered_view(self.context_after@),
        }
    }
}

/// The views of a list of results.
pub open spec fn result_views(results: Seq<SearchResult>) -> Seq<ResultView> {
    Seq::new(results.len(), |i: int| results[i]@)
}

/// The lines that precede a match at `line_number`, numbered so that the
/// last one is `line_number - 1` and the numbers are contiguous.
pub open spec fn number_before(lines: Seq<Seq<char>>, line_number: u64) -> Seq<(u64, Seq<char>)>
    recommends
        lines.len() <= line_number,
{
    Seq::new(lines.len(), |i: int| ((line_number - (lines.len() - i)) as u64, lines[i]))
}

/// The lines that follow a match at `line_number`, numbered so that the
/// first one is `line_number + 1` and the numbers are contiguous.
pub open spec fn number_after(lines: Seq<Seq<char>>, line_number: u64) -> Seq<(u64, Seq<char>)>
    recommends
        line_number + lines.len() <= u64::MAX,
{
    Seq::new(lines.len(), |i: int| ((line_number + i + 1) as u64, lines[i]))
}

/// Which side of a match a context line was reported for.
#[derive(Debug, Clone, Copy, PartialEq, Eq, Structural)]
pub enum ContextKind {
    Before,
    After,
    Other,
}

/// Why a match could not be recorded.
#[derive(Debug, Clone, Copy, PartialEq, Eq, Structural)]
pub enum SinkError {
    /// The match has no line number, or its number leaves no room to number
    /// its window from 1 on: it is not larger than the number of buffered
    /// preceding lines, or so large that the following lines cannot be
    /// numbered.
    LineNumberOutOfRange,
}

/// The state of the context machine as plain values.
#[verifier::ext_equal]
pub struct SinkModel {
    /// The file the records are for.
    pub path: Seq<char>,
    /// The window size: at most this many lines before and after a match.
    pub window: nat,
    /// The last context lines reported before a match, oldest first.
    pub before: Seq<Seq<char>>,
    /// The lines collected so far after the pending match.
    pub after: Seq<Seq<char>>,
    /// The most recent match, not yet emitted.
    pub pending: Option<ResultView>,
}

impl SinkModel {
    /// The state before any line of the file was seen.
    pub open spec fn initial(path: Seq<char>, window: nat) -> SinkModel {
        SinkModel { path, window, before: Seq::empty(), after: Seq::empty(), pending: None }
    }

    /// Both buffers respect the window, after-lines exist only for a pending
    /// match, and the pending match respects the window and awaits its
    /// after-lines.
    pub open spec fn wf(self) -> bool {
        &&& self.before.len() <= self.window
        &&& self.after.len() <= self.window
        &&& (self.pending is None ==> self.after.len() == 0)
        &&& (self.pending matches Some(p) ==> {
            &&& p.path == self.path
            &&& p.context_after.len() == 0
            &&& p.line_number + self.window <= u64::MAX
            &&& p.windowed(self.window)
        })
    }

    /// The record emitted when the pending match is finalized: the pending
    /// match with the after-lines collected so far.
    pub open spec fn finalized(self) -> Option<ResultView> {
        match self.pending {
            Some(p) => Some(
                ResultView { context_after: number_after(self.after, p.line_number), ..p },
            ),
            None => None,
        }
    }

    /// The state after the pending match, if any, was emitted.
    pub open spec fn flushed(self) -> SinkModel {
        SinkModel { after: Seq::empty(), pending: None, ..self }
    }

    /// Whether a match at `line_number` can be numbered together with its
    /// window, lines counting from 1.
    pub open spec fn in_range(self, line_number: u64) -> bool {
        self.before.len() < line_number && line_number + self.window <= u64::MAX
    }

    /// Whether a match line is refused: it decodes, but it has no line
    /// number or its number leaves no room for its window.
    pub open spec fn refuses(self, line_number: Option<u64>, bytes: Seq<u8>) -> bool {
        line_text(bytes) is Some && !self.in_range(line_number.unwrap_or(0))
    }

    /// The record a match line becomes while it is pending.
    pub open spec fn pending_for(self, line_number: u64, text: Seq<char>) -> ResultView {
        ResultView {
            path: self.path,
            line_number,
            line: text,
            context_before: number_before(self.before, line_number),
            context_after: Seq::empty(),
        }
    }

    /// The state after a match line: the earlier match is emitted, the new
    /// one, where it decodes, becomes pending with a snapshot of the
    /// before-lines, and the before-buffer starts anew, so that it only ever
    /// holds lines seen since the last match. A match that cannot be numbered
    /// leaves the state as it was.
    pub open spec fn after_match(self, line_number: Option<u64>, bytes: Seq<u8>) -> SinkModel {
        let number = line_number.unwrap_or(0);
        match line_text(bytes) {
            None => SinkModel { before: Seq::empty(), ..self.flushed() },
            Some(text) => if self.in_range(number) {
                SinkModel {
                    before: Seq::empty(),
                    pending: Some(self.pending_for(number, text)),
                    ..self.flushed()
                }
            } else {
                self
            },
        }
    }

    /// The before-buffer after one more line: the line is appended and the
    /// oldest line leaves once the window is exceeded.
    pub open spec fn pushed_before(self, text: Seq<char>) -> Seq<Seq<char>> {
        if self.before.len() + 1 > self.window {
            self.before.push(text).drop_first()
        } else {
            self.before.push(text)
        }
    }

    /// The state after a context line.
    pub open spec fn after_context(self, kind: ContextKind, bytes: Seq<u8>) -> SinkModel {
        match line_text(bytes) {
            None => self,
            Some(text) => match kind {
                ContextKind::Before => SinkModel { before: self.pushed_before(text), ..self },
                ContextKind::After => if self.pending is Some && self.after.len() < self.window {
                    SinkModel { after: self.after.push(text), ..self }
                } else {
                    self
                },
                ContextKind::Other => self,
            },
        }
    }
}

/// The context machine of one file.
pub struct SearchSink {
    path: String,
    context_before: Vec<String>,
    context_after: Vec<String>,
    context_lines: usize,
    last_match: Option<SearchResult>,
}

impl View for SearchSink {
    type V = SinkModel;

    closed spec fn view(&self) -> SinkModel {
        SinkModel {
            path: self.path@,
            window: self.context_lines as nat,
            before: texts(self.context_before@),
            after: texts(self.context_after@),
            pending: match self.last_match {
                Some(r) => Some(r@),
                None => None,
            },
        }
    }
}

impl SearchSink {
    /// A machine for the file at `path` with windows of `context_lines` lines.
    pub fn new(path: String, context_lines: usize) -> (sink: SearchSink)
        ensures
            sink@ == SinkModel::initial(path@, context_lines as nat),
            sink@.wf(),
    {
        let sink = SearchSink {
            path,
            context_before: Vec::new(),
            context_after: Vec::new(),
            context_lines,
            last_match: None,
        };
        assert(sink@ =~= SinkModel::initial(path@, context_lines as nat));
        sink
    }

    /// Emits the pending match, if there is one, with the after-lines
    /// collected so far, and empties the after-buffer.
    pub fn send_last_match(&mut self) -> (emitted: Option<SearchResult>)
        requires
            old(self)@.wf(),
        ensures
            final(self)@ == old(self)@.flushed(),
            final(self)@.wf(),
            emitted is Some <==> old(self)@.pending is Some,
            emitted matches Some(r) ==> Some(r@) == old(self)@.finalized() && r@.windowed(
                old(self)@.window,
            ),
    {
        match self.last_match.take() {
            Some(mut result) => {
                let count = self.context_after.len();
                let mut after: Vec<(u64, String)> = Vec::new();
                let mut i: usize = 0;
                while i < count
                    invariant
                        i <= count,
                        count == self.context_after.len(),
                        count <= self.context_lines,
                        result.line_number + self.context_lines <= u64::MAX,
                        after.len() == i,
                        forall|k: int|
                            0 <= k < i ==> #[trigger] after[k] == (
                                (result.line_number + k + 1) as u64,
                                self.context_after[k],
                            ),
                    decreases count - i,
                {
                    after.push((result.line_number + (i as u64) + 1, self.context_after[i].clone()));
                    i += 1;
                }
                result.context_after = after;
                self.context_after.clear();
                assert(result@ =~= old(self)@.finalized().unwrap());
                assert(self@ =~= old(self)@.flushed());
                Some(result)
            },
            None => {
                assert(self@ =~= old(self)@.flushed());
                None
            },
        }
    }

    /// Handles a match line: the earlier match is emitted with the
    /// after-lines it has, the new line becomes the pending match with a
    /// snapshot of the before-lines, and the before-buffer is emptied. A line
    /// that is not UTF-8 emits the earlier match and empties the
    /// before-buffer, but does not become pending. A line without a number,
    /// or whose number leaves no room for its window, is refused and changes
    /// nothing.
    pub fn matched(&mut self, line_number: Option<u64>, bytes: &[u8]) -> (r: Result<
        Option<SearchResult>,
        SinkError,
    >)
        requires
            old(self)@.wf(),
        ensures
            final(self)@ == old(self)@.after_match(line_number, bytes@),
            final(self)@.wf(),
            r is Err <==> old(self)@.refuses(line_number, bytes@),
            r matches Ok(emitted) ==> {
                &&& emitted is Some <==> old(self)@.pending is Some
                &&& emitted matches Some(e) ==> Some(e@) == old(self)@.finalized() && e@.windowed(
                    old(self)@.window,
                )
            },
    {
        let line = match decode_line(bytes) {
            Some(line) => line,
            None => {
                self.context_before.clear();
                let emitted = self.send_last_match();
                assert(self@ =~= old(self)@.after_match(line_number, bytes@));
                return Ok(emitted);
            },
        };
        let number: u64 = match line_number {
            Some(n) => n,
            None => 0,
        };
        let count = self.context_before.len();
        if (count as u64) >= number || number > u64::MAX - (self.context_lines as u64) {
            return Err(SinkError::LineNumberOutOfRange);
        }
        let emitted = self.send_last_match();
        let mut before: Vec<(u64, String)> = Vec::new();
        let mut i: usize = 0;
        while i < count
            invariant
                i <= count,
                count == self.context_before.len(),
                count < number,
                before.len() == i,
                forall|k: int|
                    0 <= k < i ==> #[trigger] before[k] == (
                        (number - (count - k)) as u64,
                        self.context_before[k],
                    ),
            decreases count - i,
        {
            before.push((number - ((count - i) as u64), self.context_before[i].clone()));
            i += 1;
        }
        let result = SearchResult {
            path: self.path.clone(),
            line_number: number,
            line,
            context_before: before,
            context_after: Vec::new(),
        };
        assert(result@ =~= old(self)@.pending_for(number, line@));
        self.last_match = Some(result);
        self.context_before.clear();
        self.context_after.clear();
        assert(self@ =~= old(self)@.after_match(line_number, bytes@));
        Ok(emitted)
    }

    /// Handles a context line: a before-line enters the bounded
    /// before-buffer, an after-line joins the pending match while its window
    /// has room. Lines that are not UTF-8 are ignored.
    pub fn context(&mut self, kind: ContextKind, bytes: &[u8])
        requires
            old(self)@.wf(),
        ensures
            final(self)@ == old(self)@.after_context(kind, bytes@),
            final(self)@.wf(),
    {
        let line = match decode_line(bytes) {
            Some(line) => line,
            None => {
                return ;
            },
        };
        match kind {
            ContextKind::Before => {
                self.context_before.push(line);
                if self.context_before.len() > self.context_lines {
                    let _ = self.context_before.remove(0);
                }
                assert(self@ =~= old(self)@.after_context(kind, bytes@));
            },
            ContextKind::After => {
                if self.last_match.is_some() && self.context_after.len() < self.context_lines {
                    self.context_after.push(line);
                }
                assert(self@ =~= old(self)@.after_context(kind, bytes@));
            },
            ContextKind::Other => {},
        }
    }

    /// Handles the end of the file: the pending match, if there is one, is
    /// emitted with the after-lines it has.
    pub fn finish(&mut self) -> (emitted: Option<SearchResult>)
        requires
            old(self)@.wf(),
        ensures
            final(self)@ == old(self)@.flushed(),
            final(self)@.wf(),
            emitted is Some <==> old(self)@.pending is Some,
            emitted matches Some(r) ==> Some(r@) == old(self)@.finalized() && r@.windowed(
                old(self)@.window,
            ),
    {
        self.send_last_match()
    }
}

} // verus!
