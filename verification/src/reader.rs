//! How output leaves a session: taken in from the child, kept, and read as bytes, text or screen.
use crate::buffer::{clamped, law_pieces_do_not_matter, smaller, tail_of, BufferRead, OutputBuffer};
use crate::emulator::{after_output, drawable, emulated_cursor, TerminalEvent};
use crate::platform::Host;
use crate::render::{
    pictures, render_text, rendered_text, rendering_drops_rows, snapshot, ScreenSnapshot, TextRead,
};
use crate::screen::{answer_text, drawn_afresh, stopped_at};
use crate::session::Session;
use crate::terminal::{Chunk, Query};
use crate::types::{later, Nanos, SessionState, WRITE_TIMEOUT};
use crate::writer::Input;
use vstd::prelude::*;

verus! {

/// The error number that a terminal commonly reports when the last program that used it is gone.
pub const INPUT_OUTPUT_ERROR: i32 = 5;

/// What reading from the terminal returned in place of output.
#[derive(Debug)]
pub enum ReadStop {
    EndOfOutput,
    Interrupted,
    /// The terminal's answers to its program cannot be queued.
    QueueUnavailable,
    /// The output cannot be drawn.
    Stuck,
    Failed { os_error: Option<i32>, message: String },
}

/// Whether the reader ends: `None` where it goes on, else the message that it fails with, if it
/// does. On Unix the input/output error is how a terminal commonly ends.
pub fn reader_end(host: Host, stop: ReadStop) -> (end: Option<Option<String>>)
    ensures
        match stop {
            ReadStop::EndOfOutput => end == Some(None::<String>),
            ReadStop::Interrupted => end is None,
            ReadStop::QueueUnavailable => end is Some && end->0 is Some && end->0->0@
                == "terminal response queue unavailable"@,
            ReadStop::Stuck => end is Some && end->0 is Some && end->0->0@
                == "terminal output cannot be drawn"@,
            ReadStop::Failed { os_error, message } => end == if host == Host::Unix && os_error
                == Some(INPUT_OUTPUT_ERROR) {
                Some(None::<String>)
            } else {
                Some(Some(message))
            },
        },
{
    match stop {
        ReadStop::EndOfOutput => Some(None),
        ReadStop::Interrupted => None,
        ReadStop::QueueUnavailable => Some(
            Some("terminal response queue unavailable".to_string()),
        ),
        ReadStop::Stuck => Some(Some("terminal output cannot be drawn".to_string())),
        ReadStop::Failed { os_error, message } => {
            if let Some(number) = os_error {
                if host == Host::Unix && number == INPUT_OUTPUT_ERROR {
                    return Some(None);
                }
            }
            Some(Some(message))
        },
    }
}

/// The visible bytes of the chunks.
pub open spec fn visible_of(chunks: Seq<Chunk>) -> Seq<u8>
    decreases chunks.len(),
{
    if chunks.len() == 0 {
        Seq::empty()
    } else {
        match chunks.last() {
            Chunk::Visible(bytes) => visible_of(chunks.drop_last()) + bytes@,
            Chunk::Query(_) => visible_of(chunks.drop_last()),
        }
    }
}

/// What the terminal has been given once the chunks were drawn.
pub open spec fn drawn(h: Seq<TerminalEvent>, chunks: Seq<Chunk>) -> Seq<TerminalEvent>
    decreases chunks.len(),
{
    if chunks.len() == 0 {
        h
    } else {
        match chunks.last() {
            Chunk::Visible(bytes) if bytes@.len() > 0 => after_output(
                drawn(h, chunks.drop_last()),
                bytes@,
            ),
            _ => drawn(h, chunks.drop_last()),
        }
    }
}

/// Whether the chunks can be drawn one after the other.
pub open spec fn chunks_drawable(h: Seq<TerminalEvent>, chunks: Seq<Chunk>) -> bool
    decreases chunks.len(),
{
    chunks.len() == 0 || (chunks_drawable(h, chunks.drop_last()) && (chunks.last() matches Chunk::Visible(
        bytes,
    ) ==> bytes@.len() == 0 || drawable(drawn(h, chunks.drop_last()), bytes@)))
}

/// The answers to the queries among the chunks, each from the screen as it is after every byte
/// before the query.
pub open spec fn answers(h: Seq<TerminalEvent>, chunks: Seq<Chunk>) -> Seq<u8>
    decreases chunks.len(),
{
    if chunks.len() == 0 {
        Seq::empty()
    } else {
        match chunks.last() {
            Chunk::Query(query) => {
                let cursor = emulated_cursor(drawn(h, chunks.drop_last()));
                answers(h, chunks.drop_last()) + answer_text(query, cursor.0, cursor.1)
            },
            _ => answers(h, chunks.drop_last()),
        }
    }
}

proof fn lemma_visible_of_both(a: Seq<Chunk>, b: Seq<Chunk>)
    ensures
        visible_of(a + b) == visible_of(a) + visible_of(b),
    decreases b.len(),
{
    if b.len() == 0 {
        assert(a + b == a);
    } else {
        assert((a + b).drop_last() == a + b.drop_last());
        assert((a + b).last() == b.last());
        lemma_visible_of_both(a, b.drop_last());
        assert(visible_of(a + b) =~= visible_of(a) + visible_of(b));
    }
}

/// Chunks that cannot be drawn make no longer sequence that can.
proof fn lemma_stuck(h: Seq<TerminalEvent>, chunks: Seq<Chunk>, n: int, m: int)
    requires
        0 <= n <= m <= chunks.len(),
        !chunks_drawable(h, chunks.take(n)),
    ensures
        !chunks_drawable(h, chunks.take(m)),
    decreases m,
{
    if n < m {
        assert(chunks.take(m).drop_last() == chunks.take(m - 1));
        lemma_stuck(h, chunks, n, m - 1);
    }
}

/// What becomes of a session that takes in chunks, and which input it answers them with.
pub open spec fn ingested(
    before: Session,
    after: Session,
    chunks: Seq<Chunk>,
    now: Nanos,
    since_epoch: Option<u64>,
    reply: Option<Input>,
) -> bool {
    let response = answers(before.screen@, chunks);
    &&& after.output@ == tail_of(before.output@ + visible_of(chunks), before.output.capacity())
    &&& after.output.end() == before.output.end() + visible_of(chunks).len()
    &&& after.output.capacity() == before.output.capacity()
    &&& after.screen@ == drawn(before.screen@, chunks)
    &&& after.snapshot == before.active(now, since_epoch)
    &&& after == (Session {
        snapshot: after.snapshot,
        output: after.output,
        screen: after.screen,
        ..before
    })
    &&& if response.len() == 0 || before.snapshot.ending {
        reply is None
    } else {
        &&& reply is Some
        &&& reply->0.bytes@ == response
        &&& !reply->0.user
        &&& reply->0.deadline == later(now, WRITE_TIMEOUT)
    }
}

/// What taking in chunks came to.
#[derive(Debug)]
pub enum Ingested {
    /// They were taken in; the answers to the queries among them are an input to queue.
    Taken(Option<Input>),
    /// The emulator does not take their output; nothing more can be drawn.
    Stuck,
}

/// Whether a session got stuck at the `n`th of the chunks: those before it were taken in, and of
/// it what the emulator takes was drawn.
pub open spec fn stuck_at(
    before: Session,
    after: Session,
    chunks: Seq<Chunk>,
    now: Nanos,
    since_epoch: Option<u64>,
    n: int,
) -> bool {
    let h = drawn(before.screen@, chunks.take(n));
    &&& 0 <= n < chunks.len()
    &&& chunks_drawable(before.screen@, chunks.take(n))
    &&& chunks[n] matches Chunk::Visible(bytes) && !drawable(h, bytes@) && exists|m: int|
        #[trigger] stopped_at(h, after.screen@, bytes@, m)
    &&& after.output@ == tail_of(
        before.output@ + visible_of(chunks.take(n + 1)),
        before.output.capacity(),
    )
    &&& after.output.end() == before.output.end() + visible_of(chunks.take(n + 1)).len()
    &&& after.output.capacity() == before.output.capacity()
    &&& after.snapshot == before.active(now, since_epoch)
    &&& after == (Session {
        snapshot: after.snapshot,
        output: after.output,
        screen: after.screen,
        ..before
    })
}

impl Session {
    /// Takes in what one read from the terminal brought, which counts as activity once. Visible
    /// bytes reach the screen before a later query is answered. Returns the answers as an input to
    /// queue, unless there are none or the session is ending.
    pub fn ingest(&mut self, chunks: Vec<Chunk>, now: Nanos, since_epoch: Option<u64>) -> (r:
        Ingested)
        requires
            old(self).wf(),
            old(self).output.end() + visible_of(chunks@).len() <= u64::MAX,
            old(self).snapshot.activity.output_seq < u64::MAX,
        ensures
            final(self).wf(),
            match r {
                Ingested::Taken(reply) => chunks_drawable(old(self).screen@, chunks@) && ingested(
                    *old(self),
                    *final(self),
                    chunks@,
                    now,
                    since_epoch,
                    reply,
                ),
                Ingested::Stuck => !chunks_drawable(old(self).screen@, chunks@) && exists|n: int|
                    #[trigger] stuck_at(
                        *old(self),
                        *final(self),
                        chunks@,
                        now,
                        since_epoch,
                        n,
                    ),
            },
    {
        let ghost before = *self;
        let ghost h = self.screen@;
        let ghost cap = self.output.capacity();
        let ghost whole = visible_of(chunks@);
        let mut response: Vec<u8> = Vec::new();
        let mut activity = true;
        let mut i: usize = 0;
        assert(chunks@.take(0) == Seq::<Chunk>::empty());
        assert(before.output@ + visible_of(chunks@.take(0)) == before.output@);
        while i < chunks.len()
            invariant
                i <= chunks@.len(),
                self.wf(),
                before == *old(self),
                before.output.wf(),
                whole == visible_of(chunks@),
                chunks_drawable(h, chunks@.take(i as int)),
                before.output.end() + whole.len() <= u64::MAX,
                before.snapshot.activity.output_seq < u64::MAX,
                cap == before.output.capacity(),
                h == before.screen@,
                self.output@ == tail_of(
                    before.output@ + visible_of(chunks@.take(i as int)),
                    cap,
                ),
                self.output.end() == before.output.end() + visible_of(chunks@.take(i as int)).len(),
                self.output.capacity() == cap,
                self.screen@ == drawn(h, chunks@.take(i as int)),
                self.snapshot == if activity {
                    before.snapshot
                } else {
                    before.active(now, since_epoch)
                },
                *self == (Session {
                    snapshot: self.snapshot,
                    output: self.output,
                    screen: self.screen,
                    ..before
                }),
                response@ == answers(h, chunks@.take(i as int)),
            decreases chunks@.len() - i,
        {
            let ghost done = chunks@.take(i as int);
            assert(chunks@.take(i + 1).drop_last() == done);
            assert(chunks@.take(i + 1).last() == chunks@[i as int]);
            match &chunks[i] {
                Chunk::Visible(bytes) => {
                    proof {
                        lemma_visible_of_both(chunks@.take(i + 1), chunks@.skip(i + 1));
                        assert(chunks@.take(i + 1) + chunks@.skip(i + 1) == chunks@);
                        assert(visible_of(chunks@.take(i + 1)) == visible_of(done) + bytes@);
                        law_pieces_do_not_matter(before.output@, visible_of(done), bytes@, cap);
                    }
                    let complete = self.record(activity, bytes.as_slice(), now, since_epoch);
                    activity = false;
                    if !complete {
                        proof {
                            lemma_stuck(h, chunks@, i + 1, chunks@.len() as int);
                            assert(chunks@.take(chunks@.len() as int) == chunks@);
                            assert(stuck_at(before, *self, chunks@, now, since_epoch, i as int));
                        }
                        return Ingested::Stuck;
                    }
                },
                Chunk::Query(query) => {
                    let mut answer = self.answer(*query);
                    response.append(&mut answer);
                },
            }
            i += 1;
        }
        assert(chunks@.take(i as int) == chunks@);
        if activity {
            let nothing: Vec<u8> = Vec::new();
            let ghost kept = self.output@;
            self.record(true, nothing.as_slice(), now, since_epoch);
            assert(kept + Seq::<u8>::empty() == kept);
        }
        if response.len() == 0 || self.snapshot.ending {
            return Ingested::Taken(None);
        }
        Ingested::Taken(
            Some(
                Input { bytes: response, user: false, deadline: now.saturating_add(WRITE_TIMEOUT) },
            ),
        )
    }

    /// The handle from which the output is read.
    pub fn reader(&self) -> (reader: PtyReader<'_>)
        ensures
            reader.session == self,
    {
        PtyReader { session: self }
    }
}

/// Reads the output of a session. Reading changes nothing.
pub struct PtyReader<'a> {
    pub session: &'a Session,
}

/// The bytes up to and with the last line feed; nothing where there is none.
pub open spec fn up_to_line_feed(bytes: Seq<u8>) -> Seq<u8>
    decreases bytes.len(),
{
    if bytes.len() == 0 || bytes.last() == 0x0a {
        bytes
    } else {
        up_to_line_feed(bytes.drop_last())
    }
}

/// The bytes as they are where they are all there is or hold no line feed, else up to the last.
pub open spec fn cut_at_line(bytes: Seq<u8>, all: bool) -> Seq<u8> {
    if all || up_to_line_feed(bytes).len() == 0 {
        bytes
    } else {
        up_to_line_feed(bytes)
    }
}

pub proof fn lemma_up_to_line_feed(bytes: Seq<u8>)
    ensures
        ({
            let kept = up_to_line_feed(bytes);
            &&& kept.len() <= bytes.len()
            &&& kept == bytes.take(kept.len() as int)
            &&& kept.len() > 0 ==> kept.last() == 0x0a
            &&& forall|i: int| kept.len() <= i < bytes.len() ==> bytes[i] != 0x0a
        }),
    decreases bytes.len(),
{
    if bytes.len() == 0 || bytes.last() == 0x0a {
        assert(bytes.take(bytes.len() as int) == bytes);
    } else {
        let shorter = bytes.drop_last();
        lemma_up_to_line_feed(shorter);
        let kept = up_to_line_feed(bytes);
        assert(kept == bytes.take(kept.len() as int));
        assert forall|i: int| kept.len() <= i < bytes.len() implies bytes[i] != 0x0a by {
            if i < shorter.len() {
                assert(bytes[i] == shorter[i]);
            }
        }
    }
}

/// The bytes of a text range: those that a read returns, cut at a line boundary where more output
/// follows.
pub open spec fn text_bytes(buffer: OutputBuffer, cursor: u64, max_bytes: usize) -> Seq<u8> {
    let first = clamped(cursor as int, buffer.start() as int, buffer.end() as int);
    let last = smaller(first + max_bytes, buffer.end() as int);
    cut_at_line(
        buffer@.subrange(first - buffer.start(), last - buffer.start()),
        last >= buffer.end(),
    )
}

/// Whether the read is the text range from the cursor on.
pub open spec fn is_text_range(
    buffer: OutputBuffer,
    cursor: u64,
    max_bytes: usize,
    read: BufferRead,
) -> bool {
    &&& read.bytes@ == text_bytes(buffer, cursor, max_bytes)
    &&& read.start_cursor == clamped(cursor as int, buffer.start() as int, buffer.end() as int)
    &&& read.next_cursor == read.start_cursor + read.bytes@.len()
    &&& read.dropped_bytes == if cursor < buffer.start() {
        buffer.start() - cursor
    } else {
        0
    }
}

/// How many bytes there are up to and with the last line feed.
pub(crate) fn line_length(bytes: &Vec<u8>) -> (len: usize)
    ensures
        len == up_to_line_feed(bytes@).len(),
        len <= bytes@.len(),
        bytes@.take(len as int) == up_to_line_feed(bytes@),
{
    let mut len: usize = bytes.len();
    assert(bytes@.take(len as int) == bytes@);
    while len > 0
        invariant_except_break
            up_to_line_feed(bytes@.take(len as int)) == up_to_line_feed(bytes@),
        invariant
            len <= bytes@.len(),
        ensures
            bytes@.take(len as int) == up_to_line_feed(bytes@),
        decreases len,
    {
        assert(bytes@.take(len as int).last() == bytes@[len - 1]);
        if bytes[len - 1] == 0x0a {
            break;
        }
        assert(bytes@.take(len as int).drop_last() == bytes@.take(len - 1));
        len -= 1;
    }
    len
}

impl<'a> PtyReader<'a> {
    /// Reads at most `max_bytes` retained bytes from `cursor` on.
    pub fn read(&self, cursor: u64, max_bytes: usize) -> (read: BufferRead)
        requires
            self.session.wf(),
        ensures
            self.session.output.reads(cursor, max_bytes, read),
    {
        self.session.output.read(cursor, max_bytes)
    }

    /// The emulated screen and the cursor of the first byte it has not applied.
    pub fn screen(&self) -> (picture: ScreenSnapshot)
        requires
            self.session.wf(),
        ensures
            pictures(picture, self.session.screen@),
            picture.end_cursor == self.session.output.end(),
    {
        let (_, end) = self.session.output.range();
        snapshot(&self.session.screen, end)
    }

    /// The bytes that `read_text` renders. A truncated range ends at a line boundary so the next
    /// one starts outside escape sequences and multibyte characters.
    pub fn text_range(&self, cursor: u64, max_bytes: usize) -> (read: BufferRead)
        requires
            self.session.wf(),
        ensures
            is_text_range(self.session.output, cursor, max_bytes, read),
    {
        let mut data = self.session.output.read(cursor, max_bytes);
        let (_, end) = self.session.output.range();
        if data.next_cursor < end {
            let len: usize = line_length(&data.bytes);
            if len > 0 {
                data.bytes.truncate(len);
                data.next_cursor = data.start_cursor + len as u64;
            }
        }
        data
    }

    /// Renders retained bytes from `cursor` as plain text at the session width.
    pub fn read_text(&self, cursor: u64, max_bytes: usize) -> (text: TextRead)
        requires
            self.session.wf(),
            drawn_afresh(
                text_bytes(self.session.output, cursor, max_bytes),
                self.session.snapshot.rows,
                self.session.snapshot.cols,
            ),
        ensures
            ({
                let (rows, cols) = (self.session.snapshot.rows, self.session.snapshot.cols);
                let bytes = text_bytes(self.session.output, cursor, max_bytes);
                &&& text.text@ == rendered_text(bytes, rows, cols)
                &&& text.rows_dropped == rendering_drops_rows(bytes, rows, cols)
                &&& text.start_cursor == clamped(
                    cursor as int,
                    self.session.output.start() as int,
                    self.session.output.end() as int,
                )
                &&& text.next_cursor == text.start_cursor + bytes.len()
                &&& text.dropped_bytes == if cursor < self.session.output.start() {
                    self.session.output.start() - cursor
                } else {
                    0
                }
            }),
    {
        let data = self.text_range(cursor, max_bytes);
        let (text, rows_dropped) = render_text(
            data.bytes.as_slice(),
            self.session.snapshot.rows,
            self.session.snapshot.cols,
        );
        TextRead {
            text,
            start_cursor: data.start_cursor,
            next_cursor: data.next_cursor,
            dropped_bytes: data.dropped_bytes,
            rows_dropped,
        }
    }

    /// Whether whoever waits for output at or beyond `cursor` is done waiting.
    pub fn wait_output(&self, cursor: u64) -> (done: bool)
        requires
            self.session.wf(),
        ensures
            done == (self.session.output.end() > cursor || self.session.snapshot.state
                == SessionState::Finished),
    {
        let (_, end) = self.session.output.range();
        end > cursor || self.session.snapshot.state == SessionState::Finished
    }
}

/// Text ranges read one after the other, each from where the one before ended, leave no byte out
/// and repeat none, and a range with room for a byte moves on while output is left.
pub proof fn law_text_ranges_are_contiguous(
    buffer: OutputBuffer,
    cursor: u64,
    max_bytes: usize,
    first: BufferRead,
    second: BufferRead,
)
    requires
        buffer.wf(),
        is_text_range(buffer, cursor, max_bytes, first),
        is_text_range(buffer, first.next_cursor, max_bytes, second),
    ensures
        second.start_cursor == first.next_cursor,
        second.dropped_bytes == 0,
        first.bytes@ == buffer@.subrange(
            first.start_cursor - buffer.start(),
            first.next_cursor - buffer.start(),
        ),
        first.start_cursor < buffer.end() && max_bytes > 0 ==> first.next_cursor
            > first.start_cursor,
{
    lemma_text_bytes(buffer, cursor, max_bytes);
}

pub(crate) proof fn lemma_text_bytes(buffer: OutputBuffer, cursor: u64, max_bytes: usize)
    requires
        buffer.wf(),
    ensures
        ({
            let first = clamped(cursor as int, buffer.start() as int, buffer.end() as int);
            let bytes = text_bytes(buffer, cursor, max_bytes);
            &&& first + bytes.len() <= buffer.end()
            &&& bytes.len() <= max_bytes
            &&& bytes == buffer@.subrange(
                first - buffer.start(),
                first - buffer.start() + bytes.len(),
            )
            &&& first < buffer.end() && max_bytes > 0 ==> bytes.len() > 0
        }),
{
    let first = clamped(cursor as int, buffer.start() as int, buffer.end() as int);
    let last = smaller(first + max_bytes, buffer.end() as int);
    let read = buffer@.subrange(first - buffer.start(), last - buffer.start());
    let bytes = text_bytes(buffer, cursor, max_bytes);
    lemma_up_to_line_feed(read);
    assert(bytes =~= buffer@.subrange(
        first - buffer.start(),
        first - buffer.start() + bytes.len(),
    ));
}

/// A range that is cut ends just behind its last line feed, and is left whole where it holds
/// none.
pub proof fn law_cut_ranges_end_at_a_line(bytes: Seq<u8>)
    ensures
        ({
            let kept = cut_at_line(bytes, false);
            &&& kept == bytes.take(kept.len() as int)
            &&& bytes.contains(0x0a) ==> kept.len() > 0 && kept.last() == 0x0a && forall|i: int|
                kept.len() <= i < bytes.len() ==> bytes[i] != 0x0a
            &&& !bytes.contains(0x0a) ==> kept == bytes
        }),
{
    lemma_up_to_line_feed(bytes);
    let kept = up_to_line_feed(bytes);
    assert(bytes.take(bytes.len() as int) == bytes);
    if kept.len() > 0 {
        assert(bytes[kept.len() - 1] == 0x0a);
    }
}

proof fn lemma_drawn_both(h: Seq<TerminalEvent>, a: Seq<Chunk>, b: Seq<Chunk>)
    ensures
        drawn(h, a + b) == drawn(drawn(h, a), b),
        answers(h, a + b) == answers(h, a) + answers(drawn(h, a), b),
    decreases b.len(),
{
    if b.len() == 0 {
        assert(a + b == a);
        assert(answers(h, a) + Seq::<u8>::empty() == answers(h, a));
    } else {
        assert((a + b).drop_last() == a + b.drop_last());
        assert((a + b).last() == b.last());
        lemma_drawn_both(h, a, b.drop_last());
        if let Chunk::Query(query) = b.last() {
            let cursor = emulated_cursor(drawn(h, a + b.drop_last()));
            let text = answer_text(query, cursor.0, cursor.1);
            assert(answers(h, a + b) =~= answers(h, a) + (answers(drawn(h, a), b.drop_last())
                + text));
        }
    }
}

/// Every query is answered once, in the order in which they came, and each with the cursor where it
/// is after every visible byte before the query and none behind it. Visible bytes are drawn in order,
/// and queries draw nothing.
pub proof fn law_queries_are_answered_in_stream_order(
    h: Seq<TerminalEvent>,
    before: Seq<Chunk>,
    bytes: Vec<u8>,
    query: Query,
    after: Seq<Chunk>,
)
    ensures
        ({
            let screen = drawn(h, before);
            let cursor = emulated_cursor(screen);
            let asked = before.push(Chunk::Query(query));
            let shown = before.push(Chunk::Visible(bytes));
            &&& answers(h, asked + after) == answers(h, before) + answer_text(
                query,
                cursor.0,
                cursor.1,
            ) + answers(screen, after)
            &&& drawn(h, asked) == screen
            &&& visible_of(asked) == visible_of(before)
            &&& answers(h, shown) == answers(h, before)
            &&& bytes@.len() > 0 ==> drawn(h, shown) == after_output(screen, bytes@)
            &&& bytes@.len() == 0 ==> drawn(h, shown) == screen
            &&& visible_of(shown) == visible_of(before) + bytes@
            &&& answers(h, Seq::empty()) == Seq::<u8>::empty()
            &&& visible_of(Seq::empty()) == Seq::<u8>::empty()
            &&& drawn(h, Seq::empty()) == h
        }),
{
    let asked = before.push(Chunk::Query(query));
    let shown = before.push(Chunk::Visible(bytes));
    assert(asked.drop_last() =~= before);
    assert(shown.drop_last() =~= before);
    lemma_drawn_both(h, asked, after);
}

/// Output is retained and drawn, counts as activity once, and touches nothing else. It is answered by
/// the session itself, not as a user's input, within five seconds, unless there is nothing to answer
/// or the session is ending.
pub proof fn law_output_is_taken_in(
    before: Session,
    after: Session,
    chunks: Seq<Chunk>,
    now: Nanos,
    since_epoch: Option<u64>,
    reply: Option<Input>,
)
    requires
        before.wf(),
        before.snapshot.activity.output_seq < u64::MAX,
        ingested(before, after, chunks, now, since_epoch, reply),
    ensures
        before.output.end() + visible_of(chunks).len() == after.output.end(),
        after.screen@ == drawn(before.screen@, chunks),
        after.snapshot.activity.output_seq == before.snapshot.activity.output_seq + 1,
        after.snapshot.activity.last_output_at == Some(now),
        after.snapshot.activity.interaction_id == before.snapshot.activity.interaction_id,
        after.requested == before.requested,
        after.active_write == before.active_write,
        after.process == before.process,
        after.open == before.open,
        after.snapshot.ending == before.snapshot.ending,
        reply is Some <==> answers(before.screen@, chunks).len() > 0 && !before.snapshot.ending,
        reply matches Some(input) ==> input.bytes@ == answers(before.screen@, chunks) && !input.user
            && (now + 5_000_000_000 <= Nanos::MAX ==> input.deadline == now + 5_000_000_000),
        visible_of(chunks).len() <= before.output.capacity() ==> visible_of(chunks).is_suffix_of(
            after.output@,
        ),
{
    let all = before.output@ + visible_of(chunks);
    if visible_of(chunks).len() <= before.output.capacity() {
        let kept = after.output@;
        assert(kept.subrange(kept.len() - visible_of(chunks).len(), kept.len() as int)
            =~= visible_of(chunks));
    }
}

/// A text range goes as far as it may or to the end of the output; where output is left behind it, it
/// ends just behind the last line feed in it, unless it holds none.
pub proof fn law_text_ranges_end_at_a_line(
    buffer: OutputBuffer,
    cursor: u64,
    max_bytes: usize,
    read: BufferRead,
)
    requires
        buffer.wf(),
        is_text_range(buffer, cursor, max_bytes, read),
        buffer.start() <= cursor <= buffer.end(),
    ensures
        ({
            let full = if cursor + max_bytes <= buffer.end() {
                cursor + max_bytes
            } else {
                buffer.end() as int
            };
            &&& read.start_cursor == cursor
            &&& read.dropped_bytes == 0
            &&& read.next_cursor <= full
            &&& read.bytes@ == buffer@.subrange(
                cursor - buffer.start(),
                read.next_cursor - buffer.start(),
            )
            &&& full == buffer.end() ==> read.next_cursor == full
            &&& read.next_cursor < full ==> read.bytes@.len() > 0 && read.bytes@.last() == 0x0a
            &&& full < buffer.end() && read.next_cursor < full ==> forall|i: int|
                read.next_cursor <= i < full ==> #[trigger] buffer@[i - buffer.start()] != 0x0a
            &&& full < buffer.end() && read.next_cursor == full && full > cursor ==> (
            read.bytes@.last() == 0x0a || !read.bytes@.contains(0x0a))
        }),
{
    lemma_text_bytes(buffer, cursor, max_bytes);
    let first = cursor as int;
    let last = smaller(first + max_bytes, buffer.end() as int);
    let part = buffer@.subrange(first - buffer.start(), last - buffer.start());
    lemma_up_to_line_feed(part);
    assert forall|i: int| read.next_cursor <= i < last && read.next_cursor < last implies #[trigger]
    buffer@[i - buffer.start()] != 0x0a by {
        assert(part[i - first] == buffer@[i - buffer.start()]);
    }
    if last < buffer.end() && read.next_cursor == last {
        let kept = up_to_line_feed(part);
        assert(read.bytes@ == part);
        if kept.len() == 0 {
            assert forall|i: int| 0 <= i < part.len() implies part[i] != 0x0a by {}
        }
    }
}

/// A reader goes on where it was interrupted, ends quietly at the end of the output, and with the
/// error that commonly means the same on Unix; anything else is a failure that it reports.
pub proof fn law_how_a_reader_ends(
    host: Host,
    os_error: Option<i32>,
    message: String,
    interrupted: Option<Option<String>>,
    ended: Option<Option<String>>,
    failed: Option<Option<String>>,
    queue: Option<Option<String>>,
    stuck: Option<Option<String>>,
)
    requires
        call_ensures(reader_end, (host, ReadStop::Interrupted), interrupted),
        call_ensures(reader_end, (host, ReadStop::EndOfOutput), ended),
        call_ensures(reader_end, (host, ReadStop::Failed { os_error, message }), failed),
        call_ensures(reader_end, (host, ReadStop::QueueUnavailable), queue),
        call_ensures(reader_end, (host, ReadStop::Stuck), stuck),
    ensures
        interrupted is None,
        ended is Some && ended->0 is None,
        failed is Some,
        failed->0 is None <==> host is Unix && os_error == Some(5i32),
        failed->0 matches Some(words) ==> words == message,
        queue is Some && queue->0 is Some && stuck is Some && stuck->0 is Some,
        queue->0->0@ == "terminal response queue unavailable"@,
        stuck->0->0@ == "terminal output cannot be drawn"@,
{
}

/// Whoever waits for output is done waiting once there is some behind the cursor, or none will come.
pub proof fn law_when_output_is_there(reader: &PtyReader<'_>, cursor: u64, done: bool)
    requires
        call_ensures(PtyReader::wait_output, (reader, cursor), done),
    ensures
        done <==> reader.session.output.end() >= cursor + 1 || reader.session.snapshot.state
            is Finished,
{
}

/// A session that gets stuck has taken in what came before, and retains the output that it could not
/// draw as well, which counts as activity; it could be drawn as far as it got and no further.
pub proof fn law_getting_stuck(
    before: Session,
    after: Session,
    chunks: Seq<Chunk>,
    now: Nanos,
    since_epoch: Option<u64>,
    n: int,
)
    requires
        before.wf(),
        before.snapshot.activity.output_seq < u64::MAX,
        stuck_at(before, after, chunks, now, since_epoch, n),
    ensures
        0 <= n < chunks.len() && chunks[n] is Visible,
        chunks_drawable(before.screen@, chunks.subrange(0, n)),
        !chunks_drawable(before.screen@, chunks.subrange(0, n + 1)),
        after.output.end() == before.output.end() + visible_of(chunks.subrange(0, n)).len()
            + chunks[n]->Visible_0@.len(),
        after.snapshot.activity.output_seq == before.snapshot.activity.output_seq + 1,
        after.snapshot.activity.last_output_at == Some(now),
        after.requested == before.requested && after.process == before.process && after.open
            == before.open && after.active_write == before.active_write,
{
    assert(chunks.subrange(0, n) =~= chunks.take(n));
    let more = chunks.take(n + 1);
    assert(chunks.subrange(0, n + 1) =~= more);
    assert(more.drop_last() =~= chunks.take(n));
    assert(more.last() == chunks[n]);
}

/// Chunks can be drawn where those before the last can and then the last can; a query always can, and
/// so can output of no bytes.
pub proof fn law_which_chunks_can_be_drawn(
    h: Seq<TerminalEvent>,
    before: Seq<Chunk>,
    bytes: Vec<u8>,
    query: Query,
)
    ensures
        chunks_drawable(h, Seq::empty()),
        chunks_drawable(h, before.push(Chunk::Query(query))) <==> chunks_drawable(h, before),
        chunks_drawable(h, before.push(Chunk::Visible(bytes))) <==> chunks_drawable(h, before) && (
        bytes@.len() == 0 || drawable(drawn(h, before), bytes@)),
{
    assert(before.push(Chunk::Query(query)).drop_last() =~= before);
    assert(before.push(Chunk::Visible(bytes)).drop_last() =~= before);
}

/// A reader gives the bytes that are retained, their text at the size of the session, and the screen
/// with every byte there is.
pub proof fn law_what_a_reader_gives(
    reader: &PtyReader<'_>,
    cursor: u64,
    max_bytes: usize,
    bytes: BufferRead,
    range: BufferRead,
    text: TextRead,
    screen: ScreenSnapshot,
)
    requires
        reader.session.wf(),
        call_ensures(PtyReader::read, (reader, cursor, max_bytes), bytes),
        call_ensures(PtyReader::text_range, (reader, cursor, max_bytes), range),
        call_ensures(PtyReader::read_text, (reader, cursor, max_bytes), text),
        call_ensures(PtyReader::screen, (reader,), screen),
    ensures
        reader.session.output.reads(cursor, max_bytes, bytes),
        range.start_cursor == bytes.start_cursor && range.dropped_bytes == bytes.dropped_bytes,
        range.next_cursor <= bytes.next_cursor,
        text.start_cursor == range.start_cursor && text.next_cursor == range.next_cursor
            && text.dropped_bytes == range.dropped_bytes,
        text.text@ == rendered_text(
            range.bytes@,
            reader.session.snapshot.rows,
            reader.session.snapshot.cols,
        ),
        text.rows_dropped == rendering_drops_rows(
            range.bytes@,
            reader.session.snapshot.rows,
            reader.session.snapshot.cols,
        ),
        pictures(screen, reader.session.screen@),
        screen.end_cursor == reader.session.output.end(),
{
    lemma_text_bytes(reader.session.output, cursor, max_bytes);
}

/// What was read is taken in where it can be drawn, and otherwise as far as it can; the output is then
/// given by the reader of the session.
pub proof fn law_output_is_taken_in_or_stuck()
    ensures
        forall|
            session: &mut Session,
            chunks: Vec<Chunk>,
            now: Nanos,
            since_epoch: Option<u64>,
            r: Ingested,
        |
            #[trigger] call_ensures(Session::ingest, (session, chunks, now, since_epoch), r) ==> {
                &&& r is Taken <==> chunks_drawable(session.screen@, chunks@)
                &&& r matches Ingested::Taken(reply) ==> ingested(
                    *session,
                    *final(session),
                    chunks@,
                    now,
                    since_epoch,
                    reply,
                )
                &&& r is Stuck ==> exists|n: int|
                    #[trigger] stuck_at(
                        *session,
                        *final(session),
                        chunks@,
                        now,
                        since_epoch,
                        n,
                    )
            },
        forall|session: &Session, reader: PtyReader<'_>|
            #[trigger] call_ensures(Session::reader, (session,), reader) ==> *reader.session
                == *session,
{
}

} // verus!
