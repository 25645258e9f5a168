//! Console bookkeeping for running servers: a bounded history of output
//! lines per server, whether the server's standard input is attached, and
//! what a new subscriber is replayed.

use std::collections::HashMap;
use std::collections::VecDeque;
use vstd::prelude::*;
use crate::error::CubedError;
use crate::text::concat;

verus! {

broadcast use vstd::std_specs::hash::group_hash_axioms;

/// Lines of history kept per server.
pub const BUFFER_LINES: usize = 500;

/// One line printed by a server process.
#[derive(Debug)]
pub struct ConsoleLine {
    pub server_id: u128,
    pub is_stdout: bool,
    pub text: String,
}

impl ConsoleLine {
    /// An identical copy.
    pub fn duplicate(&self) -> (r: ConsoleLine)
        ensures
            r == *self,
    {
        ConsoleLine { server_id: self.server_id, is_stdout: self.is_stdout, text: self.text.clone() }
    }
}

/// The console state of one server.
#[derive(Debug)]
pub struct ConsoleSlot {
    pub stdin_attached: bool,
    /// Whether a subscriber receives the server's lines.
    pub listening: bool,
    /// The history, oldest line first.
    pub buffer: VecDeque<ConsoleLine>,
}

/// The history after `line` arrives: appended, and the oldest line dropped
/// once more than `BUFFER_LINES` are held.
pub open spec fn ring_push(history: Seq<ConsoleLine>, line: ConsoleLine) -> Seq<ConsoleLine> {
    if history.len() + 1 > BUFFER_LINES {
        history.push(line).drop_first()
    } else {
        history.push(line)
    }
}

/// The last `n` lines of `history` (all of them if there are fewer), oldest first.
pub open spec fn last_lines(history: Seq<ConsoleLine>, n: nat) -> Seq<ConsoleLine> {
    if n >= history.len() {
        history
    } else {
        history.skip(history.len() - n)
    }
}

/// Console state of all servers that have one, by server id.
#[derive(Debug)]
pub struct ConsoleBook {
    slots: HashMap<u128, ConsoleSlot>,
}

/// A copy of the lines of `buffer`, oldest first.
fn copy_lines(buffer: &VecDeque<ConsoleLine>, start: usize) -> (r: Vec<ConsoleLine>)
    requires
        start <= buffer@.len(),
    ensures
        r@ == buffer@.subrange(start as int, buffer@.len() as int),
{
    let len = buffer.len();
    let mut out: Vec<ConsoleLine> = Vec::new();
    let mut k: usize = start;
    while k < len
        invariant
            start <= k <= len,
            len == buffer@.len(),
            out@ == buffer@.subrange(start as int, k as int),
        decreases len - k,
    {
        out.push(buffer[k].duplicate());
        k = k + 1;
    }
    out
}

impl ConsoleBook {
    /// Whether a console has been opened for the server.
    pub closed spec fn has_console(self, id: u128) -> bool {
        self.slots@.contains_key(id)
    }

    /// The lines kept for the server (none when it has no console).
    pub closed spec fn history(self, id: u128) -> Seq<ConsoleLine> {
        if self.slots@.contains_key(id) {
            self.slots@[id].buffer@
        } else {
            Seq::<ConsoleLine>::empty()
        }
    }

    /// Whether the server's standard input is attached.
    pub closed spec fn stdin_attached(self, id: u128) -> bool {
        self.slots@.contains_key(id) && self.slots@[id].stdin_attached
    }

    /// Whether a subscriber is attached to the server's console.
    pub closed spec fn listening(self, id: u128) -> bool {
        self.slots@.contains_key(id) && self.slots@[id].listening
    }

    /// No history longer than `BUFFER_LINES`.
    pub closed spec fn wf(self) -> bool {
        forall|id: u128| #[trigger] self.slots@.contains_key(id) ==> self.slots@[id].buffer@.len() <= BUFFER_LINES
    }

    /// `after` is `before` once `line` was recorded and `delivered` returned.
    pub open spec fn line_recorded(before: ConsoleBook, after: ConsoleBook, line: ConsoleLine, delivered: bool) -> bool {
        &&& after.wf()
        &&& delivered == (before.has_console(line.server_id) && before.listening(line.server_id))
        &&& before.has_console(line.server_id) ==> after.history(line.server_id) == ring_push(
            before.history(line.server_id),
            line,
        )
        &&& forall|id: u128| #[trigger] after.has_console(id) == before.has_console(id)
        &&& forall|id: u128| #[trigger] after.listening(id) == before.listening(id)
    }

    /// `after` is `before` once a subscriber attached to `id` and was
    /// handed `replay`.
    pub open spec fn subscribed(before: ConsoleBook, after: ConsoleBook, id: u128, replay: Seq<ConsoleLine>) -> bool {
        &&& after.wf()
        &&& replay == before.history(id)
        &&& after.has_console(id)
        &&& after.listening(id)
        &&& after.history(id) == before.history(id)
    }

    /// The history is never longer than `BUFFER_LINES`.
    pub proof fn law_history_bounded(self, id: u128)
        requires
            self.wf(),
        ensures
            self.history(id).len() <= BUFFER_LINES,
    {
    }

    /// A server without a console has no history, no standard input and no
    /// subscriber: its tail is empty.
    pub proof fn law_no_console_keeps_nothing(self, id: u128)
        ensures
            !self.has_console(id) ==> self.history(id) == Seq::<ConsoleLine>::empty()
                && !self.stdin_attached(id) && !self.listening(id),
    {
    }

    /// An empty book.
    pub fn new() -> (r: ConsoleBook)
        ensures
            r.wf(),
            forall|id: u128| !(#[trigger] r.has_console(id)),
            forall|id: u128| #[trigger] r.history(id) == Seq::<ConsoleLine>::empty(),
    {
        ConsoleBook { slots: HashMap::new() }
    }

    /// Whether a console has been opened for the server.
    pub fn has_slot(&self, id: u128) -> (r: bool)
        ensures
            r == self.has_console(id),
    {
        self.slots.contains_key(&id)
    }

    /// Opens a console for the server if it has none (empty history, no
    /// standard input); other servers are unaffected.
    pub fn ensure_slot(&mut self, id: u128)
        requires
            old(self).wf(),
        ensures
            final(self).wf(),
            final(self).has_console(id),
            old(self).has_console(id) ==> final(self).history(id) == old(self).history(id)
                && final(self).stdin_attached(id) == old(self).stdin_attached(id)
                && final(self).listening(id) == old(self).listening(id),
            !old(self).has_console(id) ==> final(self).history(id) == Seq::<ConsoleLine>::empty()
                && !final(self).stdin_attached(id) && !final(self).listening(id),
            forall|other: u128|
                #![trigger final(self).has_console(other)]
                #![trigger final(self).history(other)]
                #![trigger final(self).stdin_attached(other)]
                #![trigger final(self).listening(other)]
                other != id ==> (final(self).has_console(other) == old(self).has_console(other)
                    && final(self).history(other) == old(self).history(other)
                    && final(self).stdin_attached(other) == old(self).stdin_attached(other)
                    && final(self).listening(other) == old(self).listening(other)),
    {
        if !self.slots.contains_key(&id) {
            self.slots.insert(id, ConsoleSlot { stdin_attached: false, listening: false, buffer: VecDeque::new() });
        }
    }

    /// Attaches the server's standard input, opening its console if needed.
    pub fn register_stdin(&mut self, id: u128)
        requires
            old(self).wf(),
        ensures
            final(self).wf(),
            final(self).has_console(id),
            final(self).stdin_attached(id),
            final(self).history(id) == old(self).history(id),
            final(self).listening(id) == old(self).listening(id),
            forall|other: u128|
                #![trigger final(self).has_console(other)]
                #![trigger final(self).history(other)]
                #![trigger final(self).stdin_attached(other)]
                #![trigger final(self).listening(other)]
                other != id ==> (final(self).has_console(other) == old(self).has_console(other)
                    && final(self).history(other) == old(self).history(other)
                    && final(self).stdin_attached(other) == old(self).stdin_attached(other)
                    && final(self).listening(other) == old(self).listening(other)),
    {
        self.ensure_slot(id);
        let ghost mid = *self;
        if let Some(mut slot) = self.slots.remove(&id) {
            slot.stdin_attached = true;
            self.slots.insert(id, slot);
        }
        proof {
            assert forall|other: u128| other != id implies (#[trigger] self.has_console(other) == mid.has_console(other)
                && self.history(other) == mid.history(other)
                && self.stdin_attached(other) == mid.stdin_attached(other)
                && self.listening(other) == mid.listening(other)) by {
                assert(mid.has_console(other) == old(self).has_console(other));
                assert(mid.history(other) == old(self).history(other));
                assert(mid.stdin_attached(other) == old(self).stdin_attached(other));
                assert(mid.listening(other) == old(self).listening(other));
            }
        }
    }

    /// Records a line printed by a server: when the server has a console the
    /// line joins its history (dropping the oldest beyond `BUFFER_LINES`),
    /// and `true` says that subscribers are attached to receive it;
    /// otherwise the line is dropped and nothing changes.
    pub fn record_line(&mut self, line: ConsoleLine) -> (delivered: bool)
        requires
            old(self).wf(),
        ensures
            final(self).wf(),
            delivered == (old(self).has_console(line.server_id) && old(self).listening(line.server_id)),
            old(self).has_console(line.server_id) ==> final(self).history(line.server_id) == ring_push(
                old(self).history(line.server_id),
                line,
            ),
            forall|id: u128|
                #![trigger final(self).history(id)]
                id != line.server_id ==> final(self).history(id) == old(self).history(id),
            !old(self).has_console(line.server_id) ==> final(self).history(line.server_id) == old(self).history(line.server_id),
            forall|id: u128| #[trigger] final(self).has_console(id) == old(self).has_console(id),
            forall|id: u128| #[trigger] final(self).stdin_attached(id) == old(self).stdin_attached(id),
            forall|id: u128| #[trigger] final(self).listening(id) == old(self).listening(id),
            ConsoleBook::line_recorded(*old(self), *final(self), line, delivered),
    {
        let id = line.server_id;
        match self.slots.remove(&id) {
            None => {
                assert(self.slots@ =~= old(self).slots@);
                false
            },
            Some(mut slot) => {
                slot.buffer.push_back(line);
                if slot.buffer.len() > BUFFER_LINES {
                    let _ = slot.buffer.pop_front();
                }
                let listening = slot.listening;
                self.slots.insert(id, slot);
                assert(self.slots@ =~= old(self).slots@.insert(id, slot));
                listening
            },
        }
    }

    /// Opens the console if needed, attaches a subscriber, and returns the
    /// history, oldest first, to replay to it.
    pub fn attach(&mut self, id: u128) -> (replay: Vec<ConsoleLine>)
        requires
            old(self).wf(),
        ensures
            final(self).wf(),
            final(self).has_console(id),
            replay@ == old(self).history(id),
            final(self).history(id) == old(self).history(id),
            final(self).stdin_attached(id) == old(self).stdin_attached(id),
            final(self).listening(id),
            ConsoleBook::subscribed(*old(self), *final(self), id, replay@),
            forall|other: u128|
                #![trigger final(self).has_console(other)]
                #![trigger final(self).history(other)]
                #![trigger final(self).stdin_attached(other)]
                #![trigger final(self).listening(other)]
                other != id ==> (final(self).has_console(other) == old(self).has_console(other)
                    && final(self).history(other) == old(self).history(other)
                    && final(self).stdin_attached(other) == old(self).stdin_attached(other)
                    && final(self).listening(other) == old(self).listening(other)),
    {
        self.ensure_slot(id);
        let ghost mid = *self;
        let replay = match self.slots.remove(&id) {
            Some(mut slot) => {
                let replay = copy_lines(&slot.buffer, 0);
                proof {
                    assert(slot.buffer@.subrange(0, slot.buffer@.len() as int) == slot.buffer@);
                }
                slot.listening = true;
                self.slots.insert(id, slot);
                replay
            },
            None => Vec::new(),
        };
        proof {
            assert forall|other: u128| other != id implies (#[trigger] self.has_console(other) == mid.has_console(other)
                && self.history(other) == mid.history(other)
                && self.stdin_attached(other) == mid.stdin_attached(other)
                && self.listening(other) == mid.listening(other)) by {
                assert(mid.has_console(other) == old(self).has_console(other));
                assert(mid.history(other) == old(self).history(other));
                assert(mid.stdin_attached(other) == old(self).stdin_attached(other));
                assert(mid.listening(other) == old(self).listening(other));
            }
        }
        replay
    }

    /// Detaches the server's standard input and its subscribers (its process
    /// ended); the history stays.
    pub fn detach(&mut self, id: u128)
        requires
            old(self).wf(),
        ensures
            final(self).wf(),
            !final(self).stdin_attached(id),
            !final(self).listening(id),
            forall|any: u128| #[trigger] final(self).has_console(any) == old(self).has_console(any),
            forall|any: u128| #[trigger] final(self).history(any) == old(self).history(any),
            forall|other: u128|
                other != id ==> #[trigger] final(self).stdin_attached(other) == old(self).stdin_attached(other),
            forall|other: u128|
                other != id ==> #[trigger] final(self).listening(other) == old(self).listening(other),
    {
        match self.slots.remove(&id) {
            None => {
                assert(self.slots@ =~= old(self).slots@);
            },
            Some(mut slot) => {
                slot.stdin_attached = false;
                slot.listening = false;
                self.slots.insert(id, slot);
            },
        }
    }

    /// Whether a command can be written to the server: it needs a console
    /// and an attached standard input.
    pub fn command_target(&self, id: u128) -> (r: Result<(), CubedError>)
        ensures
            !self.has_console(id) ==> r == Err::<(), CubedError>(CubedError::NoConsole { server_id: id }),
            self.has_console(id) && !self.stdin_attached(id) ==> r == Err::<(), CubedError>(CubedError::StdinUnavailable),
            self.has_console(id) && self.stdin_attached(id) ==> r is Ok,
    {
        match self.slots.get(&id) {
            None => Err(CubedError::NoConsole { server_id: id }),
            Some(slot) => if slot.stdin_attached {
                Ok(())
            } else {
                Err(CubedError::StdinUnavailable)
            },
        }
    }

    /// The last `n` lines of the server's history, oldest first; none when it
    /// has no console.
    pub fn tail(&self, id: u128, n: usize) -> (r: Vec<ConsoleLine>)
        ensures
            r@ == last_lines(self.history(id), n as nat),
            !self.has_console(id) ==> r@ == Seq::<ConsoleLine>::empty(),
    {
        match self.slots.get(&id) {
            None => Vec::new(),
            Some(slot) => {
                let len = slot.buffer.len();
                let start = if n >= len { 0 } else { len - n };
                copy_lines(&slot.buffer, start)
            },
        }
    }
}

/// The text written to a server's standard input for a command.
pub fn command_text(command: &str) -> (r: String)
    ensures
        r@ == command@ + "\n"@,
{
    concat(command, "\n")
}

/// After a line is recorded for a server that has a console, it is the last
/// line of the history, and the history keeps the earlier lines in order.
pub proof fn law_recorded_line_is_last(history: Seq<ConsoleLine>, line: ConsoleLine)
    requires
        history.len() <= BUFFER_LINES,
    ensures
        last_lines(ring_push(history, line), 1) == seq![line],
        ring_push(history, line).len() <= BUFFER_LINES,
        ring_push(history, line).len() == if history.len() == BUFFER_LINES { history.len() as int } else { history.len() + 1 as int },
{
    let r = ring_push(history, line);
    assert(r.last() == line);
    assert(r.skip(r.len() - 1) == seq![line]);
}

/// The history after each line of `lines` was recorded in turn.
pub open spec fn ring_push_all(history: Seq<ConsoleLine>, lines: Seq<ConsoleLine>) -> Seq<ConsoleLine>
    decreases lines.len(),
{
    if lines.len() == 0 {
        history
    } else {
        ring_push(ring_push_all(history, lines.drop_last()), lines.last())
    }
}

proof fn lemma_ring_step(s: Seq<ConsoleLine>, line: ConsoleLine)
    ensures
        ring_push(last_lines(s, BUFFER_LINES as nat), line) == last_lines(s.push(line), BUFFER_LINES as nat),
{
    let t = last_lines(s, BUFFER_LINES as nat);
    let u = s.push(line);
    if s.len() < BUFFER_LINES {
        assert(t == s);
    } else {
        assert(t =~= s.skip(s.len() - BUFFER_LINES));
        let lhs = t.push(line).drop_first();
        let rhs = u.skip(u.len() - BUFFER_LINES);
        assert forall|k: int| 0 <= k < BUFFER_LINES implies lhs[k] == rhs[k] by {
            if k < BUFFER_LINES - 1 {
                assert(lhs[k] == t[k + 1]);
                assert(t[k + 1] == s[s.len() - BUFFER_LINES + k + 1]);
                assert(rhs[k] == u[u.len() - BUFFER_LINES + k]);
            } else {
                assert(lhs[k] == line);
                assert(rhs[k] == u[u.len() - 1]);
            }
        }
        assert(lhs =~= rhs);
    }
}

/// However many lines arrive, the history holds the last `BUFFER_LINES`
/// lines of everything printed, in order: recording `lines` one by one into
/// a history gives the last `BUFFER_LINES` of the history followed by them.
pub proof fn law_ring_keeps_last(history: Seq<ConsoleLine>, lines: Seq<ConsoleLine>)
    requires
        history.len() <= BUFFER_LINES,
    ensures
        ring_push_all(history, lines) == last_lines(history + lines, BUFFER_LINES as nat),
    decreases lines.len(),
{
    if lines.len() == 0 {
        assert(history + lines =~= history);
    } else {
        law_ring_keeps_last(history, lines.drop_last());
        lemma_ring_step(history + lines.drop_last(), lines.last());
        assert((history + lines.drop_last()).push(lines.last()) =~= history + lines);
    }
}

/// After any number of lines, `tail(id, n)` gives the last `n` lines
/// printed (at most `BUFFER_LINES` of them), oldest first.
pub proof fn law_tail_after_lines(history: Seq<ConsoleLine>, lines: Seq<ConsoleLine>, n: nat)
    requires
        history.len() <= BUFFER_LINES,
    ensures
        last_lines(ring_push_all(history, lines), n) == last_lines(
            history + lines,
            if n < BUFFER_LINES { n } else { BUFFER_LINES as nat },
        ),
{
    law_ring_keeps_last(history, lines);
    let all = history + lines;
    let kept = last_lines(all, BUFFER_LINES as nat);
    if n < BUFFER_LINES && n < kept.len() {
        assert(last_lines(kept, n) =~= last_lines(all, n));
    }
}

/// A subscriber that attaches to a server is handed its history, and every
/// line the server prints afterwards is delivered while the history keeps
/// the last `BUFFER_LINES` of all lines: `books` are the console states
/// after attaching and after each of `lines`, `delivered` what recording
/// each line returned.
pub proof fn law_subscriber_gets_history_then_lines(
    before: ConsoleBook,
    replay: Seq<ConsoleLine>,
    books: Seq<ConsoleBook>,
    lines: Seq<ConsoleLine>,
    delivered: Seq<bool>,
    id: u128,
)
    requires
        books.len() == lines.len() + 1,
        delivered.len() == lines.len(),
        ConsoleBook::subscribed(before, books[0], id, replay),
        forall|k: int| 0 <= k < lines.len() ==> (#[trigger] lines[k]).server_id == id,
        forall|k: int|
            0 <= k < lines.len() ==> ConsoleBook::line_recorded(#[trigger] books[k], books[k + 1], lines[k], delivered[k]),
    ensures
        replay == before.history(id),
        forall|k: int| 0 <= k < delivered.len() ==> #[trigger] delivered[k],
        books.last().history(id) == last_lines(before.history(id) + lines, BUFFER_LINES as nat),
{
    books[0].law_history_bounded(id);
    lemma_lines_after_subscribe(before.history(id), books, lines, delivered, id, lines.len() as int);
    law_ring_keeps_last(before.history(id), lines);
    assert(lines.take(lines.len() as int) == lines);
}

proof fn lemma_lines_after_subscribe(
    h: Seq<ConsoleLine>,
    books: Seq<ConsoleBook>,
    lines: Seq<ConsoleLine>,
    delivered: Seq<bool>,
    id: u128,
    m: int,
)
    requires
        0 <= m <= lines.len(),
        books.len() == lines.len() + 1,
        delivered.len() == lines.len(),
        books[0].has_console(id),
        books[0].listening(id),
        books[0].history(id) == h,
        forall|k: int| 0 <= k < lines.len() ==> (#[trigger] lines[k]).server_id == id,
        forall|k: int|
            0 <= k < lines.len() ==> ConsoleBook::line_recorded(#[trigger] books[k], books[k + 1], lines[k], delivered[k]),
    ensures
        books[m].has_console(id),
        books[m].listening(id),
        books[m].history(id) == ring_push_all(h, lines.take(m)),
        forall|k: int| 0 <= k < m ==> #[trigger] delivered[k],
    decreases m,
{
    if m > 0 {
        lemma_lines_after_subscribe(h, books, lines, delivered, id, m - 1);
        assert(ConsoleBook::line_recorded(books[m - 1], books[m], lines[m - 1], delivered[m - 1]));
        assert(lines.take(m).drop_last() =~= lines.take(m - 1));
        assert(lines.take(m).last() == lines[m - 1]);
    } else {
        assert(lines.take(0) =~= Seq::<ConsoleLine>::empty());
    }
}

} // verus!
