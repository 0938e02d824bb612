//! Terminal queries answered locally, in stream order with the emulated screen.
use vstd::prelude::*;

verus! {

#[derive(Debug, Clone, Copy, PartialEq, Eq, Structural)]
pub enum Query {
    Status,
    CursorPosition,
    ExtendedCursorPosition,
    PrimaryAttributes,
}

/// A maximal run of output bytes that are no part of a query, or one query.
#[derive(Debug, PartialEq, Eq)]
pub enum Chunk {
    Visible(Vec<u8>),
    Query(Query),
}

/// One step of the output stream.
pub enum Token {
    Byte(u8),
    Query(Query),
}

/// `ESC [ 5 n`
pub open spec fn status_query() -> Seq<u8> {
    seq![0x1b, 0x5b, 0x35, 0x6e]
}

/// `ESC [ 6 n`
pub open spec fn cursor_query() -> Seq<u8> {
    seq![0x1b, 0x5b, 0x36, 0x6e]
}

/// `ESC [ ? 6 n`
pub open spec fn extended_cursor_query() -> Seq<u8> {
    seq![0x1b, 0x5b, 0x3f, 0x36, 0x6e]
}

/// `ESC [ c`
pub open spec fn attributes_query() -> Seq<u8> {
    seq![0x1b, 0x5b, 0x63]
}

/// `ESC [ 0 c`
pub open spec fn explicit_attributes_query() -> Seq<u8> {
    seq![0x1b, 0x5b, 0x30, 0x63]
}

/// The query that `s` begins with, and its length.
#[verifier::opaque]
pub open spec fn query_at(s: Seq<u8>) -> Option<(Query, int)> {
    if status_query().is_prefix_of(s) {
        Some((Query::Status, 4int))
    } else if cursor_query().is_prefix_of(s) {
        Some((Query::CursorPosition, 4int))
    } else if extended_cursor_query().is_prefix_of(s) {
        Some((Query::ExtendedCursorPosition, 5int))
    } else if attributes_query().is_prefix_of(s) {
        Some((Query::PrimaryAttributes, 3int))
    } else if explicit_attributes_query().is_prefix_of(s) {
        Some((Query::PrimaryAttributes, 4int))
    } else {
        None
    }
}

/// Whether more bytes could still make `s` begin with a query.
#[verifier::opaque]
pub open spec fn undecided(s: Seq<u8>) -> bool {
    ||| s.is_prefix_of(status_query())
    ||| s.is_prefix_of(cursor_query())
    ||| s.is_prefix_of(extended_cursor_query())
    ||| s.is_prefix_of(attributes_query())
    ||| s.is_prefix_of(explicit_attributes_query())
}

/// A query lies within the bytes that begin with it.
pub proof fn lemma_query_length(s: Seq<u8>)
    ensures
        query_at(s) matches Some((query, n)) ==> 3 <= n <= s.len(),
{
    reveal(query_at);
}

/// The steps that `s` decides, in order.
pub open spec fn tokens(s: Seq<u8>) -> Seq<Token>
    decreases s.len(),
{
    proof {
        lemma_query_length(s);
    }
    if s.len() == 0 {
        Seq::empty()
    } else {
        match query_at(s) {
            Some((query, n)) => seq![Token::Query(query)] + tokens(s.skip(n)),
            None => if undecided(s) {
                Seq::empty()
            } else {
                seq![Token::Byte(s[0])] + tokens(s.skip(1))
            },
        }
    }
}

/// The end of `s` that may be the beginning of a query.
pub open spec fn rest(s: Seq<u8>) -> Seq<u8>
    decreases s.len(),
{
    proof {
        lemma_query_length(s);
    }
    if s.len() == 0 {
        s
    } else {
        match query_at(s) {
            Some((query, n)) => rest(s.skip(n)),
            None => if undecided(s) {
                s
            } else {
                rest(s.skip(1))
            },
        }
    }
}

pub open spec fn bytes_as_tokens(bytes: Seq<u8>) -> Seq<Token> {
    bytes.map_values(|b: u8| Token::Byte(b))
}

pub open spec fn chunk_tokens(chunk: Chunk) -> Seq<Token> {
    match chunk {
        Chunk::Visible(bytes) => bytes_as_tokens(bytes@),
        Chunk::Query(query) => seq![Token::Query(query)],
    }
}

/// The steps that the chunks stand for.
pub open spec fn all_tokens(chunks: Seq<Chunk>) -> Seq<Token>
    decreases chunks.len(),
{
    if chunks.len() == 0 {
        Seq::empty()
    } else {
        all_tokens(chunks.drop_last()) + chunk_tokens(chunks.last())
    }
}

/// Visible runs are not empty and as long as they can be: no two of them are neighbours.
pub open spec fn maximal_runs(chunks: Seq<Chunk>) -> bool {
    &&& forall|i: int|
        0 <= i < chunks.len() ==> (#[trigger] chunks[i] matches Chunk::Visible(bytes) ==> bytes@.len()
            > 0)
    &&& forall|i: int|
        0 <= i < chunks.len() - 1 ==> (#[trigger] chunks[i] is Visible ==> chunks[i + 1] is Query)
}

fn begins_at(data: &Vec<u8>, at: usize, query: &[u8]) -> (r: bool)
    requires
        at <= data@.len(),
    ensures
        r == query@.is_prefix_of(data@.skip(at as int)),
{
    if data.len() - at < query.len() {
        return false;
    }
    let mut i: usize = 0;
    while i < query.len()
        invariant
            at + query@.len() <= data@.len() <= usize::MAX,
            i <= query@.len(),
            forall|j: int| 0 <= j < i ==> query@[j] == data@[at + j],
        decreases query@.len() - i,
    {
        if data[at + i] != query[i] {
            assert(data@.skip(at as int).subrange(0, query@.len() as int)[i as int] == data@[at
                + i]);
            return false;
        }
        i += 1;
    }
    assert(data@.skip(at as int).subrange(0, query@.len() as int) =~= query@);
    true
}

fn ends_inside(data: &Vec<u8>, at: usize, query: &[u8]) -> (r: bool)
    requires
        at <= data@.len(),
    ensures
        r == data@.skip(at as int).is_prefix_of(query@),
{
    let n: usize = data.len() - at;
    if query.len() < n {
        return false;
    }
    let mut i: usize = 0;
    while i < n
        invariant
            n == data@.len() - at,
            data@.len() <= usize::MAX,
            n <= query@.len(),
            i <= n,
            forall|j: int| 0 <= j < i ==> query@[j] == data@[at + j],
        decreases n - i,
    {
        if data[at + i] != query[i] {
            assert(query@.subrange(0, n as int)[i as int] == query@[i as int]);
            assert(data@.skip(at as int)[i as int] == data@[at + i]);
            return false;
        }
        i += 1;
    }
    assert(query@.subrange(0, n as int) =~= data@.skip(at as int));
    true
}

fn find_query(data: &Vec<u8>, at: usize) -> (r: Option<(Query, usize)>)
    requires
        at <= data@.len(),
    ensures
        match r {
            Some((query, n)) => query_at(data@.skip(at as int)) == Some((query, n as int)) && at + n
                <= data@.len(),
            None => query_at(data@.skip(at as int)) is None,
        },
{
    reveal(query_at);
    let status: [u8; 4] = [0x1b, 0x5b, 0x35, 0x6e];
    let cursor: [u8; 4] = [0x1b, 0x5b, 0x36, 0x6e];
    let extended: [u8; 5] = [0x1b, 0x5b, 0x3f, 0x36, 0x6e];
    let attributes: [u8; 3] = [0x1b, 0x5b, 0x63];
    let explicit: [u8; 4] = [0x1b, 0x5b, 0x30, 0x63];
    assert(status@ == status_query());
    assert(cursor@ == cursor_query());
    assert(extended@ == extended_cursor_query());
    assert(attributes@ == attributes_query());
    assert(explicit@ == explicit_attributes_query());
    if begins_at(data, at, &status) {
        Some((Query::Status, 4))
    } else if begins_at(data, at, &cursor) {
        Some((Query::CursorPosition, 4))
    } else if begins_at(data, at, &extended) {
        Some((Query::ExtendedCursorPosition, 5))
    } else if begins_at(data, at, &attributes) {
        Some((Query::PrimaryAttributes, 3))
    } else if begins_at(data, at, &explicit) {
        Some((Query::PrimaryAttributes, 4))
    } else {
        None
    }
}

fn is_undecided(data: &Vec<u8>, at: usize) -> (r: bool)
    requires
        at <= data@.len(),
    ensures
        r == undecided(data@.skip(at as int)),
{
    reveal(undecided);
    let status: [u8; 4] = [0x1b, 0x5b, 0x35, 0x6e];
    let cursor: [u8; 4] = [0x1b, 0x5b, 0x36, 0x6e];
    let extended: [u8; 5] = [0x1b, 0x5b, 0x3f, 0x36, 0x6e];
    let attributes: [u8; 3] = [0x1b, 0x5b, 0x63];
    let explicit: [u8; 4] = [0x1b, 0x5b, 0x30, 0x63];
    assert(status@ == status_query());
    assert(cursor@ == cursor_query());
    assert(extended@ == extended_cursor_query());
    assert(attributes@ == attributes_query());
    assert(explicit@ == explicit_attributes_query());
    ends_inside(data, at, &status) || ends_inside(data, at, &cursor) || ends_inside(
        data,
        at,
        &extended,
    ) || ends_inside(data, at, &attributes) || ends_inside(data, at, &explicit)
}

/// Splits output into visible bytes and queries. Its view is the bytes read but not yet decided.
pub struct TerminalProtocol {
    pending: Vec<u8>,
}

impl View for TerminalProtocol {
    type V = Seq<u8>;

    closed spec fn view(&self) -> Seq<u8> {
        self.pending@
    }
}

impl Default for TerminalProtocol {
    fn default() -> (protocol: Self)
        ensures
            protocol@ == Seq::<u8>::empty(),
    {
        TerminalProtocol { pending: Vec::new() }
    }
}

impl TerminalProtocol {
    /// Splits output into visible runs and queries, preserving their order.
    pub fn process(&mut self, bytes: &[u8]) -> (chunks: Vec<Chunk>)
        ensures
            all_tokens(chunks@) == tokens(old(self)@ + bytes@),
            maximal_runs(chunks@),
            final(self)@ == rest(old(self)@ + bytes@),
    {
        self.pending.extend_from_slice(bytes);
        let ghost all = self.pending@;
        assert(all == old(self)@ + bytes@);
        let mut chunks: Vec<Chunk> = Vec::new();
        let mut visible: Vec<u8> = Vec::new();
        let mut consumed: usize = 0;
        assert(all.skip(0) == all);
        assert(all_tokens(chunks@) + bytes_as_tokens(visible@) + tokens(all) == tokens(all));
        while consumed < self.pending.len()
            invariant_except_break
                consumed <= all.len(),
                self.pending@ == all,
                all_tokens(chunks@) + bytes_as_tokens(visible@) + tokens(all.skip(consumed as int))
                    == tokens(all),
                rest(all.skip(consumed as int)) == rest(all),
                maximal_runs(chunks@),
                chunks@.len() > 0 ==> chunks@.last() is Query,
            ensures
                consumed <= all.len(),
                self.pending@ == all,
                all_tokens(chunks@) + bytes_as_tokens(visible@) == tokens(all),
                all.skip(consumed as int) == rest(all),
                maximal_runs(chunks@),
                chunks@.len() > 0 ==> chunks@.last() is Query,
            decreases all.len() - consumed,
        {
            let ghost here = all.skip(consumed as int);
            if let Some((query, n)) = find_query(&self.pending, consumed) {
                assert(here.skip(n as int) == all.skip(consumed + n));
                proof {
                    lemma_query_length(here);
                }
                consumed += n;
                let ghost before = chunks@;
                let ghost shown = visible@;
                if visible.len() > 0 {
                    chunks.push(Chunk::Visible(visible));
                    visible = Vec::new();
                    assert(chunks@.drop_last() == before);
                }
                let ghost middle = chunks@;
                assert(all_tokens(middle) == all_tokens(before) + bytes_as_tokens(shown));
                chunks.push(Chunk::Query(query));
                proof {
                    assert(chunks@.drop_last() == middle);
                    assert(all_tokens(chunks@) == all_tokens(middle) + seq![Token::Query(query)]);
                    assert(bytes_as_tokens(visible@) == Seq::<Token>::empty());
                    assert(all_tokens(before) + bytes_as_tokens(shown) + tokens(here)
                        == all_tokens(chunks@) + bytes_as_tokens(visible@) + tokens(
                        here.skip(n as int),
                    ));
                }
                continue ;
            }
            if is_undecided(&self.pending, consumed) {
                assert(tokens(here) == Seq::<Token>::empty());
                assert(all_tokens(chunks@) + bytes_as_tokens(visible@) + tokens(here) == all_tokens(
                    chunks@,
                ) + bytes_as_tokens(visible@));
                break ;
            }
            let ghost shown = visible@;
            visible.push(self.pending[consumed]);
            consumed += 1;
            proof {
                assert(here.skip(1) == all.skip(consumed as int));
                assert(here[0] == all[consumed - 1]);
                assert(bytes_as_tokens(visible@) == bytes_as_tokens(shown) + seq![
                    Token::Byte(here[0]),
                ]);
                assert(all_tokens(chunks@) + bytes_as_tokens(shown) + tokens(here) == all_tokens(
                    chunks@,
                ) + bytes_as_tokens(visible@) + tokens(here.skip(1)));
            }
        }
        if visible.len() > 0 {
            let ghost before = chunks@;
            chunks.push(Chunk::Visible(visible));
            assert(chunks@.drop_last() == before);
        } else {
            assert(bytes_as_tokens(visible@) == Seq::<Token>::empty());
            assert(all_tokens(chunks@) + bytes_as_tokens(visible@) == all_tokens(chunks@));
        }
        let kept = self.pending.split_off(consumed);
        assert(kept@ == all.skip(consumed as int));
        self.pending = kept;
        chunks
    }

    /// The bytes that no query was made of.
    pub fn finish(self) -> (bytes: Vec<u8>)
        ensures
            bytes@ == self@,
    {
        self.pending
    }
}

proof fn lemma_prefix(q: Seq<u8>, s: Seq<u8>)
    ensures
        q.is_prefix_of(s) <==> q.len() <= s.len() && forall|i: int|
            0 <= i < q.len() ==> q[i] == s[i],
{
    if q.is_prefix_of(s) {
        assert forall|i: int| 0 <= i < q.len() implies q[i] == s[i] by {
            assert(s.subrange(0, q.len() as int)[i] == s[i]);
        }
    }
    if q.len() <= s.len() && forall|i: int| 0 <= i < q.len() ==> q[i] == s[i] {
        assert(s.subrange(0, q.len() as int) =~= q);
    }
}

proof fn lemma_prefix_extend(q: Seq<u8>, s: Seq<u8>, t: Seq<u8>)
    ensures
        q.is_prefix_of(s) ==> q.is_prefix_of(s + t),
        q.is_prefix_of(s + t) ==> q.is_prefix_of(s) || s.is_prefix_of(q),
        (s + t).is_prefix_of(q) ==> s.is_prefix_of(q),
{
    lemma_prefix(q, s);
    lemma_prefix(q, s + t);
    lemma_prefix(s, q);
    lemma_prefix(s + t, q);
    if q.is_prefix_of(s) {
        assert forall|i: int| 0 <= i < q.len() implies q[i] == (s + t)[i] by {
            assert(q[i] == s[i]);
        }
    }
    if q.is_prefix_of(s + t) {
        assert forall|i: int| 0 <= i < q.len() && i < s.len() implies q[i] == s[i] by {
            assert(q[i] == (s + t)[i]);
        }
    }
    if (s + t).is_prefix_of(q) {
        assert forall|i: int| 0 <= i < s.len() implies s[i] == q[i] by {
            assert((s + t)[i] == q[i]);
        }
    }
}

/// What is decided stays decided: more bytes change neither a query at the front nor a byte that
/// is no part of one.
proof fn lemma_decided(s: Seq<u8>, t: Seq<u8>)
    ensures
        query_at(s) is Some ==> query_at(s + t) == query_at(s),
        query_at(s) is None && !undecided(s) ==> query_at(s + t) is None && !undecided(s + t),
{
    reveal(query_at);
    reveal(undecided);
    let q1 = status_query();
    let q2 = cursor_query();
    let q3 = extended_cursor_query();
    let q4 = attributes_query();
    let q5 = explicit_attributes_query();
    lemma_prefix_extend(q1, s, t);
    lemma_prefix_extend(q2, s, t);
    lemma_prefix_extend(q3, s, t);
    lemma_prefix_extend(q4, s, t);
    lemma_prefix_extend(q5, s, t);
    if query_at(s) is Some {
        let u = s + t;
        lemma_prefix(q1, u);
        lemma_prefix(q2, u);
        lemma_prefix(q3, u);
        lemma_prefix(q4, u);
        lemma_prefix(q5, u);
        assert(q1[2] == 0x35 && q2[2] == 0x36 && q3[2] == 0x3f && q4[2] == 0x63 && q5[2] == 0x30);
    }
}

/// The steps of a stream do not depend on how it was cut into reads: queries are recognised
/// across the cuts, and nothing else changes.
pub proof fn law_reads_do_not_matter(a: Seq<u8>, b: Seq<u8>)
    ensures
        tokens(a + b) == tokens(a) + tokens(rest(a) + b),
        rest(a + b) == rest(rest(a) + b),
    decreases a.len(),
{
    lemma_query_length(a);
    lemma_decided(a, b);
    if a.len() == 0 {
        assert(a + b == b);
        assert(tokens(a) + tokens(b) == tokens(b));
    } else if query_at(a) is Some {
        let (query, n) = query_at(a).unwrap();
        let first = seq![Token::Query(query)];
        law_reads_do_not_matter(a.skip(n), b);
        assert((a + b).skip(n) == a.skip(n) + b);
        assert(first + tokens(a.skip(n)) + tokens(rest(a) + b) == first + (tokens(a.skip(n))
            + tokens(rest(a) + b)));
    } else if undecided(a) {
        assert(tokens(a) == Seq::<Token>::empty());
        assert(tokens(a) + tokens(a + b) == tokens(a + b));
    } else {
        let first = seq![Token::Byte(a[0])];
        law_reads_do_not_matter(a.skip(1), b);
        assert((a + b).skip(1) == a.skip(1) + b);
        assert(first + tokens(a.skip(1)) + tokens(rest(a) + b) == first + (tokens(a.skip(1))
            + tokens(rest(a) + b)));
    }
}

/// Output without an escape byte passes unchanged and at once.
pub proof fn law_plain_output_passes(s: Seq<u8>)
    requires
        forall|i: int| 0 <= i < s.len() ==> s[i] != 0x1b,
    ensures
        tokens(s) == bytes_as_tokens(s),
        rest(s) == Seq::<u8>::empty(),
    decreases s.len(),
{
    if s.len() > 0 {
        reveal(query_at);
        reveal(undecided);
        lemma_prefix(status_query(), s);
        lemma_prefix(cursor_query(), s);
        lemma_prefix(extended_cursor_query(), s);
        lemma_prefix(attributes_query(), s);
        lemma_prefix(explicit_attributes_query(), s);
        lemma_prefix(s, status_query());
        lemma_prefix(s, cursor_query());
        lemma_prefix(s, extended_cursor_query());
        lemma_prefix(s, attributes_query());
        lemma_prefix(s, explicit_attributes_query());
        assert(status_query()[0] == 0x1b && cursor_query()[0] == 0x1b);
        assert(extended_cursor_query()[0] == 0x1b && attributes_query()[0] == 0x1b);
        assert(explicit_attributes_query()[0] == 0x1b);
        law_plain_output_passes(s.skip(1));
        assert(bytes_as_tokens(s) == seq![Token::Byte(s[0])] + bytes_as_tokens(s.skip(1)));
    } else {
        assert(bytes_as_tokens(s) == Seq::<Token>::empty());
    }
}

/// What is held back at the end is nothing, or the beginning of a query and not a whole one: at
/// most four bytes.
pub proof fn law_little_is_held_back(s: Seq<u8>)
    ensures
        rest(s).len() <= 4,
        rest(s).len() > 0 ==> undecided(rest(s)) && query_at(rest(s)) is None,
    decreases s.len(),
{
    lemma_query_length(s);
    if s.len() > 0 {
        if query_at(s) is Some {
            let (query, n) = query_at(s).unwrap();
            law_little_is_held_back(s.skip(n));
        } else if undecided(s) {
            reveal(query_at);
            reveal(undecided);
            if s.len() >= 5 {
                lemma_prefix(s, extended_cursor_query());
                lemma_prefix(extended_cursor_query(), s);
            }
        } else {
            law_little_is_held_back(s.skip(1));
        }
    }
}

/// Whether some bytes are the steps written out: each byte as itself, each query as one of the
/// sequences that ask it.
pub open spec fn spells(s: Seq<u8>, steps: Seq<Token>) -> bool
    decreases steps.len(),
{
    if steps.len() == 0 {
        s.len() == 0
    } else {
        match steps[0] {
            Token::Byte(byte) => s.len() > 0 && s[0] == byte && spells(s.skip(1), steps.skip(1)),
            Token::Query(query) => query_at(s) matches Some((asked, n)) && asked == query && spells(
                s.skip(n),
                steps.skip(1),
            ),
        }
    }
}

proof fn lemma_query_within(s: Seq<u8>, n: int)
    requires
        query_at(s) matches Some((query, len)) && len <= n <= s.len(),
    ensures
        query_at(s.take(n)) == query_at(s),
{
    let kept = s.take(n);
    reveal(query_at);
    lemma_prefix(status_query(), s);
    lemma_prefix(cursor_query(), s);
    lemma_prefix(extended_cursor_query(), s);
    lemma_prefix(attributes_query(), s);
    lemma_prefix(explicit_attributes_query(), s);
    lemma_prefix(status_query(), kept);
    lemma_prefix(cursor_query(), kept);
    lemma_prefix(extended_cursor_query(), kept);
    lemma_prefix(attributes_query(), kept);
    lemma_prefix(explicit_attributes_query(), kept);
    assert forall|i: int| 0 <= i < n implies kept[i] == s[i] by {}
}

proof fn lemma_nothing_is_lost(s: Seq<u8>)
    ensures
        rest(s).len() <= s.len(),
        s == s.take(s.len() - rest(s).len()) + rest(s),
        spells(s.take(s.len() - rest(s).len()), tokens(s)),
    decreases s.len(),
{
    lemma_query_length(s);
    if s.len() == 0 {
        assert(s.take(0) + s =~= s);
    } else if query_at(s) is Some {
        let (query, n) = query_at(s).unwrap();
        let later = s.skip(n);
        lemma_nothing_is_lost(later);
        let taken = s.take(s.len() - rest(s).len());
        assert(taken.skip(n) =~= later.take(later.len() - rest(later).len()));
        lemma_query_within(s, taken.len() as int);
        assert(tokens(s).skip(1) =~= tokens(later));
        assert(s =~= s.take(n) + later);
        assert(s =~= taken + rest(s));
    } else if undecided(s) {
        assert(s.take(0) + s =~= s);
    } else {
        let later = s.skip(1);
        lemma_nothing_is_lost(later);
        let taken = s.take(s.len() - rest(s).len());
        assert(taken.skip(1) =~= later.take(later.len() - rest(later).len()));
        assert(tokens(s).skip(1) =~= tokens(later));
        assert(s =~= s.take(1) + later);
        assert(s =~= taken + rest(s));
    }
}

/// Everything that was read.
pub open spec fn joined(reads: Seq<Seq<u8>>) -> Seq<u8>
    decreases reads.len(),
{
    if reads.len() == 0 {
        Seq::empty()
    } else {
        joined(reads.drop_last()) + reads.last()
    }
}

/// What is undecided once the reads were processed one after the other.
pub open spec fn pending_after(reads: Seq<Seq<u8>>) -> Seq<u8>
    decreases reads.len(),
{
    if reads.len() == 0 {
        Seq::empty()
    } else {
        rest(pending_after(reads.drop_last()) + reads.last())
    }
}

/// The steps that came out while the reads were processed one after the other.
pub open spec fn steps_of(reads: Seq<Seq<u8>>) -> Seq<Token>
    decreases reads.len(),
{
    if reads.len() == 0 {
        Seq::empty()
    } else {
        steps_of(reads.drop_last()) + tokens(pending_after(reads.drop_last()) + reads.last())
    }
}

proof fn lemma_reads_joined(reads: Seq<Seq<u8>>)
    ensures
        pending_after(reads) == rest(joined(reads)),
        steps_of(reads) == tokens(joined(reads)),
    decreases reads.len(),
{
    if reads.len() > 0 {
        lemma_reads_joined(reads.drop_last());
        law_reads_do_not_matter(joined(reads.drop_last()), reads.last());
    }
}

/// Nothing of a stream is lost or changed, however it was cut into reads: what came out, with the
/// queries written out, and what `finish` hands over make up the stream.
pub proof fn law_the_stream_is_given_back(reads: Seq<Seq<u8>>)
    ensures
        ({
            let stream = joined(reads);
            let left = pending_after(reads);
            &&& left.len() <= 4
            &&& left.len() > 0 ==> undecided(left) && query_at(left) is None
            &&& left.len() <= stream.len()
            &&& stream == stream.take(stream.len() - left.len()) + left
            &&& spells(stream.take(stream.len() - left.len()), steps_of(reads))
        }),
{
    lemma_reads_joined(reads);
    lemma_nothing_is_lost(joined(reads));
    law_little_is_held_back(joined(reads));
}

proof fn lemma_query_at(s: Seq<u8>)
    ensures
        query_at(s) == (if s.len() >= 3 && s[0] == 0x1b && s[1] == 0x5b {
            if s[2] == 0x63 {
                Some((Query::PrimaryAttributes, 3int))
            } else if s.len() >= 4 && s[2] == 0x35 && s[3] == 0x6e {
                Some((Query::Status, 4int))
            } else if s.len() >= 4 && s[2] == 0x36 && s[3] == 0x6e {
                Some((Query::CursorPosition, 4int))
            } else if s.len() >= 4 && s[2] == 0x30 && s[3] == 0x63 {
                Some((Query::PrimaryAttributes, 4int))
            } else if s.len() >= 5 && s[2] == 0x3f && s[3] == 0x36 && s[4] == 0x6e {
                Some((Query::ExtendedCursorPosition, 5int))
            } else {
                None
            }
        } else {
            None
        }),
{
    reveal(query_at);
    lemma_prefix(status_query(), s);
    lemma_prefix(cursor_query(), s);
    lemma_prefix(extended_cursor_query(), s);
    lemma_prefix(attributes_query(), s);
    lemma_prefix(explicit_attributes_query(), s);
    let (a, b, c, d, e) = (
        status_query(),
        cursor_query(),
        extended_cursor_query(),
        attributes_query(),
        explicit_attributes_query(),
    );
    assert(a[0] == 0x1b && a[1] == 0x5b && a[2] == 0x35 && a[3] == 0x6e);
    assert(b[0] == 0x1b && b[1] == 0x5b && b[2] == 0x36 && b[3] == 0x6e);
    assert(c[0] == 0x1b && c[1] == 0x5b && c[2] == 0x3f && c[3] == 0x36 && c[4] == 0x6e);
    assert(d[0] == 0x1b && d[1] == 0x5b && d[2] == 0x63);
    assert(e[0] == 0x1b && e[1] == 0x5b && e[2] == 0x30 && e[3] == 0x63);
}

/// Every query is recognised wherever it stands in the stream: `ESC [ 5 n` asks for the status,
/// `ESC [ 6 n` and `ESC [ ? 6 n` for the cursor, `ESC [ c` and `ESC [ 0 c` for the attributes. What
/// follows it is read as if it stood alone.
pub proof fn law_queries_are_recognised(later: Seq<u8>)
    ensures
        tokens(seq![0x1bu8, 0x5b, 0x35, 0x6e] + later) == seq![Token::Query(Query::Status)] + tokens(
            later,
        ),
        tokens(seq![0x1bu8, 0x5b, 0x36, 0x6e] + later) == seq![
            Token::Query(Query::CursorPosition),
        ] + tokens(later),
        tokens(seq![0x1bu8, 0x5b, 0x3f, 0x36, 0x6e] + later) == seq![
            Token::Query(Query::ExtendedCursorPosition),
        ] + tokens(later),
        tokens(seq![0x1bu8, 0x5b, 0x63] + later) == seq![
            Token::Query(Query::PrimaryAttributes),
        ] + tokens(later),
        tokens(seq![0x1bu8, 0x5b, 0x30, 0x63] + later) == seq![
            Token::Query(Query::PrimaryAttributes),
        ] + tokens(later),
{
    let a = seq![0x1bu8, 0x5b, 0x35, 0x6e] + later;
    let b = seq![0x1bu8, 0x5b, 0x36, 0x6e] + later;
    let c = seq![0x1bu8, 0x5b, 0x3f, 0x36, 0x6e] + later;
    let d = seq![0x1bu8, 0x5b, 0x63] + later;
    let e = seq![0x1bu8, 0x5b, 0x30, 0x63] + later;
    lemma_query_at(a);
    lemma_query_at(b);
    lemma_query_at(c);
    lemma_query_at(d);
    lemma_query_at(e);
    assert(a.skip(4) =~= later && b.skip(4) =~= later && c.skip(5) =~= later && d.skip(3)
        =~= later && e.skip(4) =~= later);
}

/// Whether the stream begins with one of the queries.
pub open spec fn begins_with_query(s: Seq<u8>) -> bool {
    s.len() >= 3 && s[0] == 0x1b && s[1] == 0x5b && {
        ||| s[2] == 0x63
        ||| s.len() >= 4 && s[2] == 0x35 && s[3] == 0x6e
        ||| s.len() >= 4 && s[2] == 0x36 && s[3] == 0x6e
        ||| s.len() >= 4 && s[2] == 0x30 && s[3] == 0x63
        ||| s.len() >= 5 && s[2] == 0x3f && s[3] == 0x36 && s[4] == 0x6e
    }
}

/// Whether all of the stream could still become one of the queries, and is none yet.
pub open spec fn could_become_query(s: Seq<u8>) -> bool {
    ||| s == seq![0x1bu8]
    ||| s == seq![0x1bu8, 0x5b]
    ||| s == seq![0x1bu8, 0x5b, 0x30]
    ||| s == seq![0x1bu8, 0x5b, 0x35]
    ||| s == seq![0x1bu8, 0x5b, 0x36]
    ||| s == seq![0x1bu8, 0x5b, 0x3f]
    ||| s == seq![0x1bu8, 0x5b, 0x3f, 0x36]
}

proof fn lemma_undecided(s: Seq<u8>)
    requires
        s.len() > 0,
        query_at(s) is None,
    ensures
        undecided(s) <==> could_become_query(s),
{
    reveal(undecided);
    lemma_query_at(s);
    lemma_prefix(s, status_query());
    lemma_prefix(s, cursor_query());
    lemma_prefix(s, extended_cursor_query());
    lemma_prefix(s, attributes_query());
    lemma_prefix(s, explicit_attributes_query());
    let (a, b, c, d, e) = (
        status_query(),
        cursor_query(),
        extended_cursor_query(),
        attributes_query(),
        explicit_attributes_query(),
    );
    assert(a[0] == 0x1b && a[1] == 0x5b && a[2] == 0x35 && a[3] == 0x6e);
    assert(b[0] == 0x1b && b[1] == 0x5b && b[2] == 0x36 && b[3] == 0x6e);
    assert(c[0] == 0x1b && c[1] == 0x5b && c[2] == 0x3f && c[3] == 0x36 && c[4] == 0x6e);
    assert(d[0] == 0x1b && d[1] == 0x5b && d[2] == 0x63);
    assert(e[0] == 0x1b && e[1] == 0x5b && e[2] == 0x30 && e[3] == 0x63);
    if undecided(s) {
        if s.len() == 1 {
            assert(s =~= seq![0x1bu8]);
        } else if s.len() == 2 {
            assert(s =~= seq![0x1bu8, 0x5b]);
        } else if s.len() == 3 {
            assert(s =~= seq![0x1bu8, 0x5b, s[2]]);
        } else {
            assert(s.len() == 4);
            assert(s =~= seq![0x1bu8, 0x5b, 0x3f, 0x36]);
        }
    }
    if could_become_query(s) {
        assert(s[0] == 0x1b);
        assert(s.len() > 1 ==> s[1] == 0x5b);
    }
}

/// A byte that neither begins a query nor could passes at once, and is not part of what follows.
/// Bytes that could still become a query are held back until more is known.
pub proof fn law_other_bytes_pass(s: Seq<u8>)
    requires
        s.len() > 0,
        !begins_with_query(s),
    ensures
        could_become_query(s) ==> tokens(s) == Seq::<Token>::empty() && rest(s) == s,
        !could_become_query(s) ==> tokens(s) == seq![Token::Byte(s[0])] + tokens(s.skip(1)) && rest(
            s,
        ) == rest(s.skip(1)),
{
    lemma_query_at(s);
    lemma_undecided(s);
}

/// Output comes in runs that are not empty and as long as they can be: a run is followed by a query or
/// by nothing, and preceded by a query or by nothing.
pub proof fn law_runs_are_as_long_as_they_can_be(chunks: Seq<Chunk>, i: int)
    requires
        maximal_runs(chunks),
        0 <= i < chunks.len(),
        chunks[i] is Visible,
    ensures
        chunks[i]->Visible_0@.len() > 0,
        i + 1 < chunks.len() ==> chunks[i + 1] is Query,
        i > 0 ==> chunks[i - 1] is Query,
{
    if i > 0 && chunks[i - 1] is Visible {
        assert(chunks[i - 1 + 1] is Query);
    }
}

/// What comes out is what went in, step by step, and what is held back is kept for the next read.
pub proof fn law_what_a_protocol_gives()
    ensures
        forall|protocol: &mut TerminalProtocol, bytes: &[u8], chunks: Vec<Chunk>|
            #[trigger] call_ensures(TerminalProtocol::process, (protocol, bytes), chunks) ==> {
                &&& all_tokens(chunks@) == tokens(protocol@ + bytes@)
                &&& maximal_runs(chunks@)
                &&& final(protocol)@ == rest(protocol@ + bytes@)
            },
        forall|protocol: TerminalProtocol, left: Vec<u8>|
            #[trigger] call_ensures(TerminalProtocol::finish, (protocol,), left) ==> left@
                == protocol@,
{
}

/// The steps of chunks are their own, one after the other: each byte of a run, and each query.
pub proof fn law_steps_of_chunks(chunks: Seq<Chunk>, bytes: Vec<u8>, query: Query)
    ensures
        all_tokens(Seq::empty()) == Seq::<Token>::empty(),
        all_tokens(chunks.push(Chunk::Query(query))) == all_tokens(chunks).push(
            Token::Query(query),
        ),
        all_tokens(chunks.push(Chunk::Visible(bytes))) == all_tokens(chunks) + Seq::new(
            bytes@.len(),
            |i: int| Token::Byte(bytes@[i]),
        ),
{
    assert(chunks.push(Chunk::Query(query)).drop_last() =~= chunks);
    assert(chunks.push(Chunk::Visible(bytes)).drop_last() =~= chunks);
    assert(all_tokens(chunks) + seq![Token::Query(query)] =~= all_tokens(chunks).push(
        Token::Query(query),
    ));
    assert(bytes_as_tokens(bytes@) =~= Seq::new(bytes@.len(), |i: int| Token::Byte(bytes@[i])));
}

} // verus!
