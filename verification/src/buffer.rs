//! A bounded byte ring addressed by absolute stream cursors.
use std::collections::VecDeque;
use vstd::prelude::*;

verus! {

/// The last `n` bytes of `s`, or all of them where there are fewer.
pub open spec fn tail_of(s: Seq<u8>, n: nat) -> Seq<u8> {
    if s.len() <= n {
        s
    } else {
        s.skip(s.len() - n)
    }
}

/// `x` moved into the interval from `low` to `high`.
pub open spec fn clamped(x: int, low: int, high: int) -> int {
    if x < low {
        low
    } else if x > high {
        high
    } else {
        x
    }
}

pub open spec fn smaller(a: int, b: int) -> int {
    if a <= b {
        a
    } else {
        b
    }
}

/// The newest bytes of a stream. Its view is the retained bytes; the byte at position `i` of the
/// view is byte `start + i` of the stream.
#[derive(Debug)]
pub struct OutputBuffer {
    bytes: VecDeque<u8>,
    start: u64,
    end: u64,
    capacity: usize,
}

/// The bytes `start_cursor..next_cursor` of a stream, and how many bytes between the cursor that
/// was asked for and `start_cursor` are no longer retained.
#[derive(Debug, Clone, PartialEq, Eq)]
pub struct BufferRead {
    pub bytes: Vec<u8>,
    pub start_cursor: u64,
    pub next_cursor: u64,
    pub dropped_bytes: u64,
}

impl View for OutputBuffer {
    type V = Seq<u8>;

    closed spec fn view(&self) -> Seq<u8> {
        self.bytes@
    }
}

impl OutputBuffer {
    /// Cursor of the oldest retained byte.
    pub closed spec fn start(&self) -> nat {
        self.start as nat
    }

    /// Cursor just past the newest byte: the number of bytes ever appended.
    pub closed spec fn end(&self) -> nat {
        self.end as nat
    }

    /// How many bytes are retained at most.
    pub closed spec fn capacity(&self) -> nat {
        self.capacity as nat
    }

    pub open spec fn wf(&self) -> bool {
        &&& self.end() == self.start() + self@.len()
        &&& self@.len() <= self.capacity()
        &&& self.end() <= u64::MAX
        &&& self.capacity() <= usize::MAX
    }

    /// Whether this is what is left once data was appended.
    pub open spec fn appended(&self, after: OutputBuffer, data: Seq<u8>) -> bool {
        &&& after.wf()
        &&& after@ == tail_of(self@ + data, self.capacity())
        &&& after.end() == self.end() + data.len()
        &&& after.capacity() == self.capacity()
    }

    /// What reading at most `max_bytes` from `cursor` returns.
    pub open spec fn reads(&self, cursor: u64, max_bytes: usize, read: BufferRead) -> bool {
        let first = clamped(cursor as int, self.start() as int, self.end() as int);
        let last = smaller(first + max_bytes, self.end() as int);
        &&& read.start_cursor == first
        &&& read.next_cursor == last
        &&& read.bytes@ == self@.subrange(first - self.start(), last - self.start())
        &&& read.dropped_bytes == if cursor < self.start() {
            self.start() - cursor
        } else {
            0
        }
    }

    /// An empty buffer that retains at most `capacity` bytes.
    pub fn new(capacity: usize) -> (buffer: Self)
        requires
            capacity <= isize::MAX,
        ensures
            buffer.wf(),
            buffer@ == Seq::<u8>::empty(),
            buffer.start() == 0,
            buffer.end() == 0,
            buffer.capacity() == capacity,
    {
        Self { bytes: VecDeque::with_capacity(capacity), start: 0, end: 0, capacity }
    }

    /// Appends `data` and drops the oldest bytes beyond the capacity.
    pub fn append(&mut self, data: &[u8])
        requires
            old(self).wf(),
            old(self).end() + data@.len() <= u64::MAX,
        ensures
            old(self).appended(*final(self), data@),
    {
        let ghost before = self@;
        let ghost end = self.end();
        let ghost cap = self.capacity();
        let mut i: usize = 0;
        assert(before + data@.take(0) == before);
        while i < data.len()
            invariant
                i <= data@.len(),
                self.wf(),
                self@ == tail_of(before + data@.take(i as int), cap),
                self.end() == end + i,
                self.capacity() == cap,
                end + data@.len() <= u64::MAX,
            decreases data@.len() - i,
        {
            self.bytes.push_back(data[i]);
            self.end = self.end + 1;
            if self.bytes.len() > self.capacity {
                self.bytes.pop_front();
                self.start = self.start + 1;
            }
            i += 1;
            proof {
                let t = before + data@.take(i - 1);
                assert(before + data@.take(i as int) == t.push(data@[i - 1]));
                assert(self@ =~= tail_of(t.push(data@[i - 1]), cap));
            }
        }
        assert(data@.take(i as int) == data@);
    }

    /// Reads at most `max_bytes` retained bytes from `cursor` on.
    pub fn read(&self, cursor: u64, max_bytes: usize) -> (read: BufferRead)
        requires
            self.wf(),
        ensures
            self.reads(cursor, max_bytes, read),
    {
        let effective = if cursor < self.start {
            self.start
        } else if cursor > self.end {
            self.end
        } else {
            cursor
        };
        let dropped_bytes = self.start.saturating_sub(cursor);
        let offset: usize = (effective - self.start) as usize;
        let available: usize = self.bytes.len() - offset;
        let len: usize = if available < max_bytes {
            available
        } else {
            max_bytes
        };
        let mut bytes: Vec<u8> = Vec::new();
        let mut i: usize = 0;
        while i < len
            invariant
                i <= len,
                offset + len <= self.bytes@.len() <= usize::MAX,
                bytes@ == self.bytes@.subrange(offset as int, offset + i),
            decreases len - i,
        {
            bytes.push(self.bytes[offset + i]);
            i += 1;
            assert(self.bytes@.subrange(offset as int, offset + i) == self.bytes@.subrange(
                offset as int,
                offset + i - 1,
            ).push(self.bytes@[offset + i - 1]));
        }
        BufferRead {
            bytes,
            start_cursor: effective,
            next_cursor: effective + len as u64,
            dropped_bytes,
        }
    }

    /// The newest `max_bytes` retained bytes.
    pub fn tail(&self, max_bytes: usize) -> (bytes: Vec<u8>)
        requires
            self.wf(),
        ensures
            bytes@ == tail_of(self@, max_bytes as nat),
    {
        let skip: usize = self.bytes.len().saturating_sub(max_bytes);
        let mut bytes: Vec<u8> = Vec::new();
        let mut i: usize = skip;
        while i < self.bytes.len()
            invariant
                skip <= i <= self.bytes@.len(),
                bytes@ == self.bytes@.subrange(skip as int, i as int),
            decreases self.bytes@.len() - i,
        {
            bytes.push(self.bytes[i]);
            i += 1;
            assert(self.bytes@.subrange(skip as int, i as int) == self.bytes@.subrange(
                skip as int,
                i - 1,
            ).push(self.bytes@[i - 1]));
        }
        bytes
    }

    /// The cursors of the oldest retained byte and just past the newest one.
    pub fn range(&self) -> (range: (u64, u64))
        ensures
            range.0 == self.start(),
            range.1 == self.end(),
    {
        (self.start, self.end)
    }
}

/// Appending `a` and then `b` retains what appending both at once retains: the ring holds the
/// newest bytes of the stream, however the stream was cut into pieces.
pub proof fn law_pieces_do_not_matter(retained: Seq<u8>, a: Seq<u8>, b: Seq<u8>, capacity: nat)
    requires
        retained.len() <= capacity,
    ensures
        tail_of(tail_of(retained + a, capacity) + b, capacity) == tail_of(
            retained + (a + b),
            capacity,
        ),
{
    assert(tail_of(tail_of(retained + a, capacity) + b, capacity) =~= tail_of(
        retained + (a + b),
        capacity,
    ));
}

/// All the data of a number of pieces, in order.
pub open spec fn stream(pieces: Seq<Seq<u8>>) -> Seq<u8>
    decreases pieces.len(),
{
    if pieces.len() == 0 {
        Seq::empty()
    } else {
        stream(pieces.drop_last()) + pieces.last()
    }
}

/// Whether a buffer is what the one before it becomes when the piece between them is appended.
pub open spec fn follows(buffers: Seq<OutputBuffer>, pieces: Seq<Seq<u8>>, i: int) -> bool {
    buffers[i].appended(buffers[i + 1], pieces[i])
}

/// Whether the buffers are, one after the other, what an empty one becomes when the pieces are
/// appended.
pub open spec fn grows(buffers: Seq<OutputBuffer>, pieces: Seq<Seq<u8>>) -> bool {
    &&& buffers.len() == pieces.len() + 1
    &&& buffers[0].wf()
    &&& buffers[0].end() == 0
    &&& forall|i: int| 0 <= i < pieces.len() ==> #[trigger] follows(buffers, pieces, i)
}

/// Only what was appended counts, not in which pieces: a buffer that was empty holds the newest
/// bytes of the whole stream, as many as it retains at most, and ends where the stream ends. Read as
/// a whole, it gives them back, and its end never moved back.
pub proof fn law_only_the_stream_counts(
    buffers: Seq<OutputBuffer>,
    pieces: Seq<Seq<u8>>,
    read: BufferRead,
)
    requires
        grows(buffers, pieces),
        buffers.last().reads(0, usize::MAX, read),
    ensures
        ({
            let (data, last) = (stream(pieces), buffers.last());
            let kept = smaller(data.len() as int, buffers[0].capacity() as int);
            &&& last.capacity() == buffers[0].capacity()
            &&& last@ == tail_of(data, last.capacity())
            &&& last.start() == data.len() - kept
            &&& last.end() == data.len()
            &&& read.bytes@ == data.skip(data.len() - kept)
            &&& read.bytes@.len() == kept
        }),
        forall|i: int, j: int|
            0 <= i <= j < buffers.len() ==> (#[trigger] buffers[i]).end() <= (
            #[trigger] buffers[j]).end(),
{
    let n = pieces.len() as int;
    lemma_grown(buffers, pieces, n);
    assert(pieces.take(n) == pieces);
    assert forall|i: int, j: int| 0 <= i <= j < buffers.len() implies (#[trigger] buffers[i]).end()
        <= (#[trigger] buffers[j]).end() by {
        lemma_end_grows(buffers, pieces, i, j);
    }
    let data = stream(pieces);
    let last = buffers.last();
    assert(read.bytes@ =~= last@);
    assert(data.skip(0) =~= data);
}

proof fn lemma_grown(buffers: Seq<OutputBuffer>, pieces: Seq<Seq<u8>>, n: int)
    requires
        grows(buffers, pieces),
        0 <= n <= pieces.len(),
    ensures
        buffers[n].wf(),
        buffers[n].capacity() == buffers[0].capacity(),
        buffers[n]@ == tail_of(stream(pieces.take(n)), buffers[0].capacity()),
        buffers[n].end() == stream(pieces.take(n)).len(),
    decreases n,
{
    if n == 0 {
        assert(stream(pieces.take(0)) == Seq::<u8>::empty());
        assert(buffers[0]@ == Seq::<u8>::empty());
    } else {
        lemma_grown(buffers, pieces, n - 1);
        assert(follows(buffers, pieces, n - 1));
        let earlier = stream(pieces.take(n - 1));
        assert(pieces.take(n).drop_last() == pieces.take(n - 1));
        assert(pieces.take(n).last() == pieces[n - 1]);
        law_pieces_do_not_matter(Seq::empty(), earlier, pieces[n - 1], buffers[0].capacity());
        assert(Seq::<u8>::empty() + earlier == earlier);
        assert(Seq::<u8>::empty() + (earlier + pieces[n - 1]) == earlier + pieces[n - 1]);
    }
}

proof fn lemma_end_grows(buffers: Seq<OutputBuffer>, pieces: Seq<Seq<u8>>, i: int, j: int)
    requires
        grows(buffers, pieces),
        0 <= i <= j < buffers.len(),
    ensures
        buffers[i].end() <= buffers[j].end(),
    decreases j - i,
{
    if i < j {
        lemma_end_grows(buffers, pieces, i, j - 1);
        assert(follows(buffers, pieces, j - 1));
    }
}

/// Two reads, the second from where the first ended, return together the bytes of one read of
/// both lengths, and end where it ends.
pub proof fn law_reads_are_contiguous(
    buffer: OutputBuffer,
    cursor: u64,
    n: usize,
    m: usize,
    nm: usize,
    first: BufferRead,
    second: BufferRead,
    both: BufferRead,
)
    requires
        buffer.wf(),
        nm == n + m,
        buffer.reads(cursor, n, first),
        buffer.reads(first.next_cursor, m, second),
        buffer.reads(cursor, nm, both),
    ensures
        second.start_cursor == first.next_cursor,
        second.dropped_bytes == 0,
        first.bytes@ + second.bytes@ == both.bytes@,
        second.next_cursor == both.next_cursor,
{
    assert(first.bytes@ + second.bytes@ =~= both.bytes@);
}

/// A read never moves its cursor back, except from beyond the end of the stream, and together
/// with the bytes reported as dropped it accounts for every byte between its two cursors.
pub proof fn law_cursor_is_monotonic(
    buffer: OutputBuffer,
    cursor: u64,
    max_bytes: usize,
    read: BufferRead,
)
    requires
        buffer.wf(),
        buffer.reads(cursor, max_bytes, read),
    ensures
        cursor <= buffer.end() ==> read.next_cursor == cursor + read.dropped_bytes
            + read.bytes@.len(),
        cursor > buffer.end() ==> read.next_cursor == buffer.end() && read.bytes@.len() == 0,
        read.bytes@.len() <= max_bytes,
{
}

/// Output is read back as it was appended, from where it was appended: all of it, or its newest part
/// where it exceeds the capacity.
pub proof fn law_output_is_read_back(
    before: OutputBuffer,
    after: OutputBuffer,
    data: Seq<u8>,
    max_bytes: usize,
    read: BufferRead,
)
    requires
        before.wf(),
        before.appended(after, data),
        max_bytes >= data.len(),
        after.reads(before.end() as u64, max_bytes, read),
    ensures
        read.bytes@ == tail_of(data, before.capacity()),
        read.dropped_bytes + read.bytes@.len() == data.len(),
        read.next_cursor == after.end(),
{
    assert(read.bytes@ =~= tail_of(data, before.capacity()));
}

/// The end of what is retained is given as it is: the newest bytes, as many as are asked for or there
/// are. Appending keeps the stream going, and reading changes nothing.
pub proof fn law_what_a_buffer_does(
    buffer: &OutputBuffer,
    max_bytes: usize,
    newest: Vec<u8>,
    cursor: u64,
    read: BufferRead,
    range: (u64, u64),
)
    requires
        buffer.wf(),
        call_ensures(OutputBuffer::tail, (buffer, max_bytes), newest),
        call_ensures(OutputBuffer::read, (buffer, cursor, max_bytes), read),
        call_ensures(OutputBuffer::range, (buffer,), range),
    ensures
        newest@.len() == (if buffer@.len() <= max_bytes {
            buffer@.len()
        } else {
            max_bytes as nat
        }),
        newest@ == buffer@.subrange(buffer@.len() - newest@.len(), buffer@.len() as int),
        buffer.reads(cursor, max_bytes, read),
        range.0 == buffer.start() && range.1 == buffer.end(),
        forall|grown: &mut OutputBuffer, data: &[u8], unit: ()|
            #[trigger] call_ensures(OutputBuffer::append, (grown, data), unit) ==> grown.appended(
                *final(grown),
                data@,
            ),
{
    assert(newest@ =~= buffer@.subrange(buffer@.len() - newest@.len(), buffer@.len() as int));
}

} // verus!
