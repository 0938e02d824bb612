//! Plain-text views of terminal output produced by an emulator.
use crate::emulator::{
    after_output, emulated_alternate_screen, emulated_application_cursor, emulated_cursor,
    emulated_hidden_cursor, emulated_inverse, emulated_rows, emulator_history, emulator_offset,
    lemma_after_output, scrollback_room, scrolled_out, size_after, Emulator, TerminalEvent,
};
use crate::screen::{drawn_afresh, fresh_terminal, open_fresh, Screen};
use crate::text::{join, joined, texts, trim_end, trimmed_end};
use vstd::prelude::*;
use vstd::string::*;

verus! {

/// Logical rows kept while rendering one text range; older rows are reported as dropped.
pub const TEXT_SCROLLBACK: usize = 4000;

#[derive(Debug, Clone, Copy, PartialEq, Eq, Structural)]
pub struct CursorPosition {
    pub row: u16,
    pub col: u16,
}

/// A run of reverse-video cells, which TUIs commonly use for selection and focus.
#[derive(Debug, Clone, Copy, PartialEq, Eq, Structural)]
pub struct Highlight {
    pub row: u16,
    pub col: u16,
    pub len: u16,
}

/// The emulated screen after applying every output byte before `end_cursor`.
#[derive(Debug, Clone)]
pub struct ScreenSnapshot {
    pub rows: u16,
    pub cols: u16,
    /// Physical rows without trailing blanks; trailing empty rows are omitted.
    pub lines: Vec<String>,
    pub cursor: CursorPosition,
    pub cursor_visible: bool,
    pub alternate_screen: bool,
    pub application_cursor: bool,
    pub highlights: Vec<Highlight>,
    pub end_cursor: u64,
}

/// Rendered text of the byte range `start_cursor..next_cursor`.
#[derive(Debug, Clone)]
pub struct TextRead {
    pub text: String,
    pub start_cursor: u64,
    pub next_cursor: u64,
    pub dropped_bytes: u64,
    /// Early rows of this range exceeded `TEXT_SCROLLBACK` and are missing from `text`.
    pub rows_dropped: bool,
}

/// A line as it is shown: trailing spaces are kept only where the cursor is, where prompts end.
pub open spec fn shown(line: Seq<char>, keep: bool) -> Seq<char> {
    if keep {
        line
    } else {
        trimmed_end(line)
    }
}

/// Takes the line out of its buffer as it is shown.
pub fn finish(line: &mut String, keep: bool) -> (text: String)
    ensures
        text@ == shown(old(line)@, keep),
        final(line)@ == Seq::<char>::empty(),
{
    let text = if keep {
        line.clone()
    } else {
        trim_end(line.as_str())
    };
    *line = String::new();
    text
}

/// The lines up to the last one that is not empty.
pub open spec fn up_to_last_text(lines: Seq<Seq<char>>) -> Seq<Seq<char>>
    decreases lines.len(),
{
    if lines.len() > 0 && lines.last().len() == 0 {
        up_to_last_text(lines.drop_last())
    } else {
        lines
    }
}

/// Removes the empty lines at the end.
pub fn drop_trailing_empty(lines: &mut Vec<String>)
    ensures
        texts(final(lines)@) == up_to_last_text(texts(old(lines)@)),
{
    while lines.len() > 0 && lines[lines.len() - 1].as_str().is_empty()
        invariant
            up_to_last_text(texts(lines@)) == up_to_last_text(texts(old(lines)@)),
        decreases lines@.len(),
    {
        let ghost before = lines@;
        lines.pop();
        assert(texts(lines@) == texts(before).drop_last());
    }
    assert(texts(lines@).len() > 0 ==> texts(lines@).last() == lines@.last()@);
}

/// How many empty lines there are at the end.
pub open spec fn trailing_empty(lines: Seq<Seq<char>>) -> nat
    decreases lines.len(),
{
    if lines.len() > 0 && lines.last().len() == 0 {
        1 + trailing_empty(lines.drop_last())
    } else {
        0
    }
}

pub open spec fn empty_lines(n: nat) -> Seq<Seq<char>> {
    Seq::new(n, |i: int| Seq::<char>::empty())
}

/// How many empty lines stand for a run of `n`: one for three or more.
pub open spec fn kept_of_run(n: nat) -> nat {
    if n >= 3 {
        1
    } else {
        n
    }
}

/// The lines up to the last one that is not empty, with every run of three or more empty ones
/// shortened to one.
pub open spec fn collapsed_text(lines: Seq<Seq<char>>) -> Seq<Seq<char>>
    decreases lines.len(),
{
    if lines.len() == 0 {
        lines
    } else if lines.last().len() == 0 {
        collapsed_text(lines.drop_last())
    } else {
        collapsed_text(lines.drop_last()) + empty_lines(
            kept_of_run(trailing_empty(lines.drop_last())),
        ) + seq![lines.last()]
    }
}

/// The lines with every run of three or more empty ones shortened to one.
pub open spec fn collapsed(lines: Seq<Seq<char>>) -> Seq<Seq<char>> {
    collapsed_text(lines) + empty_lines(kept_of_run(trailing_empty(lines)))
}

/// Appends what stands for a run of empty lines.
fn push_run(lines: &mut Vec<String>, run: usize)
    ensures
        texts(final(lines)@) == texts(old(lines)@) + empty_lines(kept_of_run(run as nat)),
{
    let kept: usize = if run >= 3 {
        1
    } else {
        run
    };
    let ghost before = texts(lines@);
    let mut k: usize = 0;
    assert(before + empty_lines(0) == before);
    while k < kept
        invariant
            k <= kept,
            texts(lines@) == before + empty_lines(k as nat),
        decreases kept - k,
    {
        let ghost partly = texts(lines@);
        lines.push(String::new());
        assert(texts(lines@) == partly.push(Seq::empty()));
        k += 1;
        assert(empty_lines(k as nat) == empty_lines((k - 1) as nat).push(Seq::empty()));
        assert(partly.push(Seq::empty()) == before + empty_lines(k as nat));
    }
}

/// Runs of three or more empty lines, typical of cleared or full-screen drawing, become one.
pub fn collapse_blank_runs(lines: Vec<String>) -> (compact: Vec<String>)
    ensures
        texts(compact@) == collapsed(texts(lines@)),
{
    let ghost all = texts(lines@);
    let mut compact: Vec<String> = Vec::new();
    let mut blanks: usize = 0;
    let mut i: usize = 0;
    assert(texts(compact@) == collapsed_text(all.take(0)));
    while i < lines.len()
        invariant
            i <= lines@.len(),
            blanks <= i,
            all == texts(lines@),
            blanks == trailing_empty(all.take(i as int)),
            texts(compact@) == collapsed_text(all.take(i as int)),
        decreases lines@.len() - i,
    {
        assert(all.take(i + 1).drop_last() == all.take(i as int));
        assert(all.take(i + 1).last() == lines@[i as int]@);
        if lines[i].as_str().is_empty() {
            blanks += 1;
        } else {
            push_run(&mut compact, blanks);
            blanks = 0;
            let ghost partly = texts(compact@);
            compact.push(lines[i].clone());
            assert(texts(compact@) == partly.push(lines@[i as int]@));
            assert(partly.push(lines@[i as int]@) == partly + seq![lines@[i as int]@]);
        }
        i += 1;
    }
    assert(all.take(i as int) == all);
    push_run(&mut compact, blanks);
    compact
}

/// How many rows the first line of text runs over: up to and with the first row that does not
/// continue on the next, or all rows.
pub open spec fn first_line_rows(rows: Seq<(Seq<char>, bool)>) -> nat
    decreases rows.len(),
{
    if rows.len() == 0 {
        0
    } else if !rows[0].1 {
        1
    } else {
        1 + first_line_rows(rows.skip(1))
    }
}

/// The texts of the rows, one after the other.
pub open spec fn row_texts(rows: Seq<(Seq<char>, bool)>) -> Seq<char>
    decreases rows.len(),
{
    if rows.len() == 0 {
        Seq::empty()
    } else {
        row_texts(rows.drop_last()) + rows.last().0
    }
}

/// The lines of text that the rows hold: rows that continue on the next are joined with it, and
/// trailing spaces are kept only on the line with the cursor. A last line that never ended counts
/// where it holds anything.
pub open spec fn text_lines(rows: Seq<(Seq<char>, bool)>, cursor_row: int) -> Seq<Seq<char>>
    decreases rows.len(),
{
    let n = first_line_rows(rows);
    if rows.len() == 0 || n == 0 || n > rows.len() {
        Seq::empty()
    } else {
        let line = row_texts(rows.take(n as int));
        if rows[n - 1].1 && line.len() == 0 {
            Seq::empty()
        } else {
            seq![shown(line, 0 <= cursor_row < n)] + text_lines(
                rows.skip(n as int),
                cursor_row - n,
            )
        }
    }
}

/// The rows as their texts and whether each continues on the next.
pub open spec fn rows_view(rows: Seq<(String, bool)>) -> Seq<(Seq<char>, bool)> {
    rows.map_values(|row: (String, bool)| (row.0@, row.1))
}

/// All rows up to the `n`th but the last continue, the last does not.
proof fn lemma_ended_line(rows: Seq<(Seq<char>, bool)>, n: int)
    requires
        0 < n <= rows.len(),
        forall|i: int| 0 <= i < n - 1 ==> (#[trigger] rows[i]).1,
        !rows[n - 1].1,
    ensures
        first_line_rows(rows) == n,
    decreases n,
{
    if n > 1 {
        assert(rows[0].1);
        assert forall|i: int| 0 <= i < n - 2 implies (#[trigger] rows.skip(1)[i]).1 by {
            assert(rows.skip(1)[i] == rows[i + 1]);
        }
        lemma_ended_line(rows.skip(1), n - 1);
    }
}

proof fn lemma_open_line(rows: Seq<(Seq<char>, bool)>)
    requires
        forall|i: int| 0 <= i < rows.len() ==> (#[trigger] rows[i]).1,
    ensures
        first_line_rows(rows) == rows.len(),
    decreases rows.len(),
{
    if rows.len() > 0 {
        assert(rows[0].1);
        assert forall|i: int| 0 <= i < rows.len() - 1 implies (#[trigger] rows.skip(1)[i]).1 by {
            assert(rows.skip(1)[i] == rows[i + 1]);
        }
        lemma_open_line(rows.skip(1));
    }
}

/// Joins wrapped rows to lines of text.
pub fn lines_of_rows(physical: &Vec<(String, bool)>, cursor_row: usize) -> (lines: Vec<String>)
    ensures
        texts(lines@) == text_lines(rows_view(physical@), cursor_row as int),
{
    let ghost rows = rows_view(physical@);
    let ghost whole = text_lines(rows, cursor_row as int);
    let mut lines: Vec<String> = Vec::new();
    let mut current = String::new();
    let mut keep = false;
    let ghost mut begin: int = 0;
    let mut i: usize = 0;
    assert(rows.skip(0) == rows);
    assert(rows.subrange(0, 0) == Seq::<(Seq<char>, bool)>::empty());
    assert(texts(lines@) + whole == whole);
    while i < physical.len()
        invariant
            0 <= begin <= i <= physical@.len(),
            rows == rows_view(physical@),
            texts(lines@) + text_lines(rows.skip(begin), cursor_row - begin) == whole,
            current@ == row_texts(rows.subrange(begin, i as int)),
            keep == (begin <= cursor_row < i),
            forall|j: int| begin <= j < i ==> (#[trigger] rows[j]).1,
        decreases physical@.len() - i,
    {
        let ghost part = rows.subrange(begin, i + 1);
        assert(part.drop_last() == rows.subrange(begin, i as int));
        assert(rows[i as int] == (physical@[i as int].0@, physical@[i as int].1));
        current.append(physical[i].0.as_str());
        keep = keep || i == cursor_row;
        if !physical[i].1 {
            proof {
                let tail = rows.skip(begin);
                let n = i + 1 - begin;
                assert forall|j: int| 0 <= j < n - 1 implies (#[trigger] tail[j]).1 by {
                    assert(tail[j] == rows[begin + j]);
                }
                assert(tail[n - 1] == rows[i as int]);
                lemma_ended_line(tail, n);
                assert(tail.take(n) == part);
                assert(tail.skip(n) == rows.skip(i + 1));
            }
            let ghost before = texts(lines@);
            let ghost line = current@;
            let text = finish(&mut current, keep);
            lines.push(text);
            keep = false;
            proof {
                let later = text_lines(rows.skip(i + 1), cursor_row - (i + 1));
                assert(texts(lines@) == before.push(text@));
                assert(before + (seq![text@] + later) == texts(lines@) + later);
                begin = i + 1;
                assert(rows.subrange(begin, i + 1) == Seq::<(Seq<char>, bool)>::empty());
            }
        }
        i += 1;
    }
    proof {
        let tail = rows.skip(begin);
        assert(tail == rows.subrange(begin, i as int));
        assert forall|j: int| 0 <= j < tail.len() implies (#[trigger] tail[j]).1 by {
            assert(tail[j] == rows[begin + j]);
        }
        lemma_open_line(tail);
        assert(tail.take(tail.len() as int) == tail);
        let end = tail.skip(tail.len() as int);
        assert(end == Seq::<(Seq<char>, bool)>::empty());
        assert(text_lines(end, cursor_row - begin - tail.len()) == Seq::<Seq<char>>::empty());
        if tail.len() > 0 {
            assert(tail[tail.len() - 1].1);
        }
    }
    let ghost before = texts(lines@);
    if !current.as_str().is_empty() {
        let text = finish(&mut current, keep);
        lines.push(text);
        proof {
            assert(texts(lines@) == before.push(text@));
            assert(before + (seq![text@] + Seq::<Seq<char>>::empty()) == texts(lines@));
        }
    } else {
        assert(before + Seq::<Seq<char>>::empty() == before);
    }
    lines
}

/// The text that retained rows show with the cursor in the given one of them.
pub open spec fn shown_text(rows: Seq<(Seq<char>, bool)>, cursor_row: int) -> Seq<char> {
    joined(collapsed(up_to_last_text(text_lines(rows, cursor_row))), "\n"@)
}

/// Lays retained rows out as text: wrapped rows joined, long runs of empty lines shortened.
pub fn layout_text(physical: &Vec<(String, bool)>, cursor_row: usize) -> (text: String)
    ensures
        text@ == shown_text(rows_view(physical@), cursor_row as int),
{
    let mut lines = lines_of_rows(physical, cursor_row);
    drop_trailing_empty(&mut lines);
    let compact = collapse_blank_runs(lines);
    join(&compact, "\n")
}

/// Appends the first `take` rows in view.
fn collect(emulator: &Emulator, take: usize, out: &mut Vec<(String, bool)>)
    requires
        take <= size_after(emulator_history(*emulator)).0,
        emulator_offset(*emulator) <= scrolled_out(emulator_history(*emulator)),
    ensures
        ({
            let h = emulator_history(*emulator);
            let first = scrolled_out(h) - emulator_offset(*emulator);
            rows_view(final(out)@) == rows_view(old(out)@) + emulated_rows(h).subrange(
                first,
                first + take,
            )
        }),
{
    let ghost h = emulator_history(*emulator);
    let ghost first = scrolled_out(h) - emulator_offset(*emulator);
    let ghost before = rows_view(out@);
    let rows = emulator.rows();
    let mut i: usize = 0;
    assert(before + emulated_rows(h).subrange(first, first) == before);
    while i < take
        invariant
            i <= take <= rows@.len(),
            take <= size_after(h).0,
            h == emulator_history(*emulator),
            first == scrolled_out(h) - emulator_offset(*emulator),
            emulator_offset(*emulator) <= scrolled_out(h),
            forall|j: int|
                0 <= j < rows@.len() ==> (#[trigger] rows@[j])@ == emulated_rows(h)[first + j].0,
            rows_view(out@) == before + emulated_rows(h).subrange(first, first + i),
        decreases take - i,
    {
        let wrapped = emulator.row_wrapped(i as u16);
        let ghost partly = rows_view(out@);
        out.push((rows[i].clone(), wrapped));
        i += 1;
        proof {
            let row = emulated_rows(h)[first + i - 1];
            assert(rows_view(out@) == partly.push(row));
            assert(emulated_rows(h).subrange(first, first + i) == emulated_rows(h).subrange(
                first,
                first + i - 1,
            ).push(row));
        }
    }
}

/// What a fresh terminal of the given size has been given after the given output.
pub open spec fn fresh_history(bytes: Seq<u8>, rows: u16, cols: u16) -> Seq<TerminalEvent> {
    after_output(fresh_terminal(rows, cols), bytes)
}

/// How many of the rows that scrolled out are kept: the latest `TEXT_SCROLLBACK` at most.
pub open spec fn kept_above(h: Seq<TerminalEvent>) -> int {
    if scrolled_out(h) > TEXT_SCROLLBACK {
        TEXT_SCROLLBACK as int
    } else {
        scrolled_out(h)
    }
}

/// The text that a byte range shows on a fresh terminal of the given size.
pub open spec fn rendered_text(bytes: Seq<u8>, rows: u16, cols: u16) -> Seq<char> {
    let h = fresh_history(bytes, rows, cols);
    shown_text(
        emulated_rows(h).skip(scrolled_out(h) - kept_above(h)),
        kept_above(h) + emulated_cursor(h).0,
    )
}

/// Whether early rows of a byte range exceed the rows kept while rendering.
pub open spec fn rendering_drops_rows(bytes: Seq<u8>, rows: u16, cols: u16) -> bool {
    scrolled_out(fresh_history(bytes, rows, cols)) > TEXT_SCROLLBACK
}

/// Renders a byte range on a fresh emulator of the session width, joining wrapped rows.
/// Returns the text and whether early rows exceeded `TEXT_SCROLLBACK`.
pub fn render_text(bytes: &[u8], rows: u16, cols: u16) -> (r: (String, bool))
    requires
        drawn_afresh(bytes@, rows, cols),
    ensures
        r.0@ == rendered_text(bytes@, rows, cols),
        r.1 == rendering_drops_rows(bytes@, rows, cols),
{
    let mut screen = open_fresh(rows, cols);
    screen.process(bytes);
    let ghost h = fresh_history(bytes@, rows, cols);
    assert(screen@ == h);
    let mut emulator = screen.into_emulator();
    let (height, _) = emulator.size();
    proof {
        let opened = fresh_terminal(rows, cols);
        assert(opened.last() == opened[0]);
        lemma_after_output(opened, bytes@);
        assert(size_after(h).0 >= 1);
        assert(scrollback_room(h) == TEXT_SCROLLBACK + 1);
    }
    emulator.set_scrollback(usize::MAX);
    let total = emulator.scrollback();
    let above: usize = if total > TEXT_SCROLLBACK {
        TEXT_SCROLLBACK
    } else {
        total
    };
    let ghost all = emulated_rows(h).skip(total - above);
    let mut physical: Vec<(String, bool)> = Vec::new();
    // Each scrollback offset exposes a window whose first rows are the oldest unseen ones.
    let mut offset: usize = above;
    assert(all.take(0) == rows_view(physical@));
    while offset > 0
        invariant
            offset <= above <= total,
            total == scrolled_out(h),
            emulator_history(emulator) == h,
            all == emulated_rows(h).skip(total - above),
            size_after(h).0 == height,
            height >= 1,
            rows_view(physical@) == all.take(above - offset),
        decreases offset,
    {
        emulator.set_scrollback(offset);
        let take: usize = if offset < height as usize {
            offset
        } else {
            height as usize
        };
        collect(&emulator, take, &mut physical);
        assert(emulated_rows(h).subrange(total - offset, total - offset + take) == all.subrange(
            above - offset,
            above - offset + take,
        ));
        assert(all.take(above - offset) + all.subrange(
            above - offset,
            above - offset + take,
        ) == all.take(above - (offset - take)));
        offset -= take;
    }
    emulator.set_scrollback(0);
    assert(physical@.len() == rows_view(physical@).len());
    let cursor_row: usize = above + emulator.cursor_position().0 as usize;
    collect(&emulator, height as usize, &mut physical);
    assert(all.take(above as int) + emulated_rows(h).subrange(total as int, total + height) == all);
    (layout_text(&physical, cursor_row), total > TEXT_SCROLLBACK)
}

/// Whether a highlight is a run of reverse-video cells in one row that extends as far as it can.
pub open spec fn is_run(h: Seq<TerminalEvent>, highlight: Highlight) -> bool {
    let (rows, cols) = size_after(h);
    let end = highlight.col + highlight.len;
    &&& highlight.row < rows
    &&& highlight.len > 0
    &&& end <= cols
    &&& forall|col: u16|
        highlight.col <= col < end ==> #[trigger] emulated_inverse(h, highlight.row, col)
    &&& highlight.col > 0 ==> !emulated_inverse(h, highlight.row, (highlight.col - 1) as u16)
    &&& end < cols ==> !emulated_inverse(h, highlight.row, end as u16)
}

/// Whether the highlight covers the cell.
pub open spec fn covers(highlight: Highlight, row: u16, col: u16) -> bool {
    highlight.row == row && highlight.col <= col < highlight.col + highlight.len
}

/// Whether one highlight stands above another, or to the left of it in one row.
pub open spec fn precedes(a: Highlight, b: Highlight) -> bool {
    a.row < b.row || (a.row == b.row && a.col + a.len <= b.col)
}

/// Whether the highlights are the runs of reverse-video cells of a screen from top to bottom and
/// from left to right, and all of them.
pub open spec fn highlights_of(h: Seq<TerminalEvent>, highlights: Seq<Highlight>) -> bool {
    let (rows, cols) = size_after(h);
    &&& forall|i: int| 0 <= i < highlights.len() ==> is_run(h, #[trigger] highlights[i])
    &&& forall|i: int, j: int|
        0 <= i < j < highlights.len() ==> precedes(#[trigger] highlights[i], #[trigger]
            highlights[j])
    &&& forall|row: u16, col: u16|
        row < rows && col < cols && #[trigger] emulated_inverse(h, row, col) ==> exists|i: int|
            0 <= i < highlights.len() && covers(#[trigger] highlights[i], row, col)
}

/// Whether the highlights hold every complete run that begins above the cell, or to the left of
/// it in its row, and the open run every cell from its start up to the cell.
spec fn runs_up_to(
    h: Seq<TerminalEvent>,
    highlights: Seq<Highlight>,
    run: Option<Highlight>,
    row: u16,
    col: u16,
) -> bool {
    let (rows, cols) = size_after(h);
    &&& forall|i: int|
        0 <= i < highlights.len() ==> {
            let found = #[trigger] highlights[i];
            is_run(h, found) && (found.row < row || (found.row == row && found.col + found.len
                <= (if run is Some {
                run->0.col
            } else {
                col
            })))
        }
    &&& forall|i: int, j: int|
        0 <= i < j < highlights.len() ==> precedes(#[trigger] highlights[i], #[trigger]
            highlights[j])
    &&& forall|r: u16, c: u16|
        r < rows && c < cols && (r < row || (r == row && c < (if run is Some {
            run->0.col
        } else {
            col
        }))) && #[trigger] emulated_inverse(h, r, c) ==> exists|i: int|
            0 <= i < highlights.len() && covers(#[trigger] highlights[i], r, c)
    &&& match run {
        Some(open) => {
            &&& open.row == row
            &&& open.len > 0
            &&& open.col + open.len == col
            &&& forall|c: u16| open.col <= c < col ==> #[trigger] emulated_inverse(h, row, c)
            &&& open.col > 0 ==> !emulated_inverse(h, row, (open.col - 1) as u16)
        },
        None => col > 0 ==> !emulated_inverse(h, row, (col - 1) as u16),
    }
}

proof fn lemma_close_run(
    h: Seq<TerminalEvent>,
    highlights: Seq<Highlight>,
    open: Highlight,
    row: u16,
    col: u16,
)
    requires
        runs_up_to(h, highlights, Some(open), row, col),
        row < size_after(h).0,
        col <= size_after(h).1,
        col < size_after(h).1 ==> !emulated_inverse(h, row, col),
    ensures
        forall|i: int|
            0 <= i < highlights.len() + 1 ==> is_run(h, #[trigger] highlights.push(open)[i]),
        forall|i: int, j: int|
            0 <= i < j < highlights.len() + 1 ==> precedes(
                #[trigger] highlights.push(open)[i],
                #[trigger] highlights.push(open)[j],
            ),
        forall|r: u16, c: u16|
            r < size_after(h).0 && c < size_after(h).1 && (r < row || (r == row && c < col))
                && #[trigger] emulated_inverse(h, r, c) ==> exists|i: int|
                0 <= i < highlights.len() + 1 && covers(
                    #[trigger] highlights.push(open)[i],
                    r,
                    c,
                ),
{
    let longer = highlights.push(open);
    assert forall|i: int| 0 <= i < longer.len() implies is_run(h, #[trigger] longer[i]) by {
        if i < highlights.len() {
            assert(longer[i] == highlights[i]);
        }
    }
    assert forall|i: int, j: int| 0 <= i < j < longer.len() implies precedes(
        #[trigger] longer[i],
        #[trigger] longer[j],
    ) by {
        assert(longer[i] == highlights[i]);
        if j < highlights.len() {
            assert(longer[j] == highlights[j]);
        }
    }
    assert forall|r: u16, c: u16|
        r < size_after(h).0 && c < size_after(h).1 && (r < row || (r == row && c < col))
            && #[trigger] emulated_inverse(h, r, c) implies exists|i: int|
        0 <= i < longer.len() && covers(#[trigger] longer[i], r, c) by {
        if r == row && c >= open.col {
            assert(covers(longer[highlights.len() as int], r, c));
        } else {
            let i = choose|i: int|
                0 <= i < highlights.len() && covers(#[trigger] highlights[i], r, c);
            assert(longer[i] == highlights[i]);
        }
    }
}

/// The runs of reverse-video cells of a screen.
pub fn highlights(screen: &Screen) -> (highlights: Vec<Highlight>)
    requires
        screen.wf(),
    ensures
        highlights_of(screen@, highlights@),
{
    let (rows, cols) = screen.size();
    let mut highlights: Vec<Highlight> = Vec::new();
    let mut row: u16 = 0;
    while row < rows
        invariant
            row <= rows,
            screen.wf(),
            (rows, cols) == size_after(screen@),
            runs_up_to(screen@, highlights@, None, row, 0),
        decreases rows - row,
    {
        let mut run: Option<Highlight> = None;
        let mut col: u16 = 0;
        while col < cols
            invariant
                row < rows,
                col <= cols,
                screen.wf(),
                (rows, cols) == size_after(screen@),
                runs_up_to(screen@, highlights@, run, row, col),
            decreases cols - col,
        {
            let inverse = screen.inverse(row, col);
            match run {
                Some(current) => {
                    if inverse {
                        run = Some(Highlight { row, col: current.col, len: current.len + 1 });
                    } else {
                        proof {
                            lemma_close_run(screen@, highlights@, current, row, col);
                        }
                        highlights.push(current);
                        run = None;
                    }
                },
                None => {
                    if inverse {
                        run = Some(Highlight { row, col, len: 1 });
                    }
                },
            }
            col += 1;
        }
        if let Some(current) = run {
            proof {
                lemma_close_run(screen@, highlights@, current, row, col);
            }
            highlights.push(current);
        }
        row += 1;
    }
    highlights
}

/// The lines that a screen shows: its rows without trailing blanks but for the row with the
/// cursor, up to the last that is not empty.
pub open spec fn screen_lines(h: Seq<TerminalEvent>) -> Seq<Seq<char>> {
    up_to_last_text(
        Seq::new(
            size_after(h).0 as nat,
            |i: int| shown(emulated_rows(h)[scrolled_out(h) + i].0, i == emulated_cursor(h).0),
        ),
    )
}

/// Whether a snapshot shows what a screen shows after the given events.
pub open spec fn pictures(snapshot: ScreenSnapshot, h: Seq<TerminalEvent>) -> bool {
    &&& (snapshot.rows, snapshot.cols) == size_after(h)
    &&& texts(snapshot.lines@) == screen_lines(h)
    &&& (snapshot.cursor.row, snapshot.cursor.col) == emulated_cursor(h)
    &&& snapshot.cursor_visible == !emulated_hidden_cursor(h)
    &&& snapshot.alternate_screen == emulated_alternate_screen(h)
    &&& snapshot.application_cursor == emulated_application_cursor(h)
    &&& highlights_of(h, snapshot.highlights@)
}

/// What a screen shows after the output before `end_cursor`.
pub fn snapshot(screen: &Screen, end_cursor: u64) -> (snapshot: ScreenSnapshot)
    requires
        screen.wf(),
    ensures
        pictures(snapshot, screen@),
        snapshot.end_cursor == end_cursor,
{
    let (rows, cols) = screen.size();
    let (row, col) = screen.cursor_position();
    let raw = screen.lines();
    // Spaces the program wrote before the cursor, such as after a prompt, are kept.
    let mut lines: Vec<String> = Vec::new();
    let mut i: usize = 0;
    while i < raw.len()
        invariant
            i <= raw@.len(),
            lines@.len() == i,
            forall|j: int| 0 <= j < i ==> (#[trigger] lines@[j])@ == shown(raw@[j]@, j == row),
        decreases raw@.len() - i,
    {
        if i == row as usize {
            lines.push(raw[i].clone());
        } else {
            lines.push(trim_end(raw[i].as_str()));
        }
        i += 1;
    }
    assert(texts(lines@) == Seq::new(
        rows as nat,
        |i: int| shown(
            emulated_rows(screen@)[scrolled_out(screen@) + i].0,
            i == emulated_cursor(screen@).0,
        ),
    )) by {
        assert forall|j: int| 0 <= j < lines@.len() implies #[trigger] texts(lines@)[j] == shown(
            emulated_rows(screen@)[scrolled_out(screen@) + j].0,
            j == emulated_cursor(screen@).0,
        ) by {
            assert(lines@[j]@ == shown(raw@[j]@, j == row));
        }
    }
    drop_trailing_empty(&mut lines);
    ScreenSnapshot {
        rows,
        cols,
        lines,
        cursor: CursorPosition { row, col },
        cursor_visible: screen.cursor_visible(),
        alternate_screen: screen.alternate_screen(),
        application_cursor: screen.application_cursor(),
        highlights: highlights(screen),
        end_cursor,
    }
}

/// The lines that are not empty, in order.
pub open spec fn without_empty(lines: Seq<Seq<char>>) -> Seq<Seq<char>>
    decreases lines.len(),
{
    if lines.len() == 0 {
        lines
    } else if lines.last().len() == 0 {
        without_empty(lines.drop_last())
    } else {
        without_empty(lines.drop_last()).push(lines.last())
    }
}

proof fn lemma_without_empty_lines(lines: Seq<Seq<char>>, n: nat)
    ensures
        without_empty(lines + empty_lines(n)) == without_empty(lines),
    decreases n,
{
    if n == 0 {
        assert(lines + empty_lines(n) == lines);
    } else {
        let longer = lines + empty_lines(n);
        assert(longer.last() == Seq::<char>::empty());
        assert(longer.drop_last() == lines + empty_lines((n - 1) as nat));
        lemma_without_empty_lines(lines, (n - 1) as nat);
    }
}

proof fn lemma_collapsed_text_keeps(lines: Seq<Seq<char>>)
    ensures
        without_empty(collapsed_text(lines)) == without_empty(lines),
    decreases lines.len(),
{
    if lines.len() > 0 {
        let before = lines.drop_last();
        lemma_collapsed_text_keeps(before);
        if lines.last().len() != 0 {
            let gap = empty_lines(kept_of_run(trailing_empty(before)));
            let result = collapsed_text(lines);
            assert(result.last() == lines.last());
            assert(result.drop_last() == collapsed_text(before) + gap);
            lemma_without_empty_lines(collapsed_text(before), kept_of_run(trailing_empty(before)));
        }
    }
}

/// Shortening runs of empty lines loses no line that holds anything, and changes none.
pub proof fn law_collapsing_keeps_text(lines: Seq<Seq<char>>)
    ensures
        without_empty(collapsed(lines)) == without_empty(lines),
{
    lemma_collapsed_text_keeps(lines);
    lemma_without_empty_lines(collapsed_text(lines), kept_of_run(trailing_empty(lines)));
}

/// Whether three lines from the `i`th on are empty.
pub open spec fn long_gap(lines: Seq<Seq<char>>, i: int) -> bool {
    lines[i].len() == 0 && lines[i + 1].len() == 0 && lines[i + 2].len() == 0
}

/// Whether no three lines in a row are empty.
pub open spec fn short_gaps(lines: Seq<Seq<char>>) -> bool {
    forall|i: int| 0 <= i < lines.len() - 2 ==> !#[trigger] long_gap(lines, i)
}

proof fn lemma_gap(lines: Seq<Seq<char>>, n: nat)
    requires
        short_gaps(lines),
        lines.len() > 0 ==> lines.last().len() > 0,
        n <= 2,
    ensures
        short_gaps(lines + empty_lines(n)),
{
    let longer = lines + empty_lines(n);
    assert forall|i: int| 0 <= i < longer.len() - 2 implies !#[trigger] long_gap(longer, i) by {
        if i + 2 < lines.len() {
            assert(!long_gap(lines, i));
        } else {
            assert(longer[lines.len() - 1] == lines.last());
        }
    }
}

proof fn lemma_line_after(lines: Seq<Seq<char>>, line: Seq<char>)
    requires
        short_gaps(lines),
        line.len() > 0,
    ensures
        short_gaps(lines + seq![line]),
{
    let longer = lines + seq![line];
    assert forall|i: int| 0 <= i < longer.len() - 2 implies !#[trigger] long_gap(longer, i) by {
        if i + 2 < lines.len() {
            assert(!long_gap(lines, i));
        } else {
            assert(longer[i + 2] == line);
        }
    }
}

proof fn lemma_collapsed_text_is_short(lines: Seq<Seq<char>>)
    ensures
        collapsed_text(lines).len() > 0 ==> collapsed_text(lines).last().len() > 0,
        short_gaps(collapsed_text(lines)),
    decreases lines.len(),
{
    if lines.len() > 0 {
        let before = lines.drop_last();
        lemma_collapsed_text_is_short(before);
        if lines.last().len() != 0 {
            let kept = kept_of_run(trailing_empty(before));
            lemma_gap(collapsed_text(before), kept);
            lemma_line_after(collapsed_text(before) + empty_lines(kept), lines.last());
            assert(collapsed_text(lines).last() == lines.last());
        }
    }
}

/// What is left has no three empty lines in a row.
pub proof fn law_collapsed_gaps_are_short(lines: Seq<Seq<char>>)
    ensures
        short_gaps(collapsed(lines)),
{
    lemma_collapsed_text_is_short(lines);
    lemma_gap(collapsed_text(lines), kept_of_run(trailing_empty(lines)));
}

proof fn lemma_up_to_last_text(lines: Seq<Seq<char>>)
    ensures
        trailing_empty(up_to_last_text(lines)) == 0,
    decreases lines.len(),
{
    if lines.len() > 0 && lines.last().len() == 0 {
        lemma_up_to_last_text(lines.drop_last());
    }
}

/// The text of a terminal has no empty line at its end, and no three in a row anywhere.
pub proof fn law_shown_text_is_compact(rows: Seq<(Seq<char>, bool)>, cursor_row: int)
    ensures
        ({
            let lines = collapsed(up_to_last_text(text_lines(rows, cursor_row)));
            &&& shown_text(rows, cursor_row) == joined(lines, "\n"@)
            &&& lines.len() > 0 ==> lines.last().len() > 0
            &&& short_gaps(lines)
        }),
{
    let lines = up_to_last_text(text_lines(rows, cursor_row));
    lemma_up_to_last_text(text_lines(rows, cursor_row));
    law_collapsed_gaps_are_short(lines);
    lemma_collapsed_text_is_short(lines);
    assert(collapsed(lines) =~= collapsed_text(lines));
}

proof fn lemma_trailing_empty_after(lines: Seq<Seq<char>>, n: nat)
    requires
        lines.len() > 0 ==> lines.last().len() > 0,
    ensures
        trailing_empty(lines + empty_lines(n)) == n,
        collapsed_text(lines + empty_lines(n)) == collapsed_text(lines),
    decreases n,
{
    let longer = lines + empty_lines(n);
    if n == 0 {
        assert(longer == lines);
    } else {
        assert(longer.last() == Seq::<char>::empty());
        assert(longer.drop_last() == lines + empty_lines((n - 1) as nat));
        lemma_trailing_empty_after(lines, (n - 1) as nat);
    }
}

proof fn lemma_collapsed_text_twice(lines: Seq<Seq<char>>)
    ensures
        collapsed_text(collapsed_text(lines)) == collapsed_text(lines),
    decreases lines.len(),
{
    if lines.len() > 0 {
        let before = lines.drop_last();
        lemma_collapsed_text_twice(before);
        if lines.last().len() != 0 {
            let kept = kept_of_run(trailing_empty(before));
            let result = collapsed_text(lines);
            lemma_collapsed_text_is_short(before);
            lemma_trailing_empty_after(collapsed_text(before), kept);
            assert(result.last() == lines.last());
            assert(result.drop_last() == collapsed_text(before) + empty_lines(kept));
            assert(kept_of_run(kept) == kept);
        }
    }
}

/// Shortening runs of empty lines again changes nothing.
pub proof fn law_collapsing_twice_changes_nothing(lines: Seq<Seq<char>>)
    ensures
        collapsed(collapsed(lines)) == collapsed(lines),
{
    lemma_collapsed_text_twice(lines);
    lemma_collapsed_text_is_short(lines);
    lemma_trailing_empty_after(collapsed_text(lines), kept_of_run(trailing_empty(lines)));
}

/// Every cell of a screen is in reverse video exactly where a highlight of its snapshot covers
/// it.
pub proof fn law_highlights_show_reverse_video(
    h: Seq<TerminalEvent>,
    snapshot: ScreenSnapshot,
    row: u16,
    col: u16,
)
    requires
        pictures(snapshot, h),
        row < snapshot.rows,
        col < snapshot.cols,
    ensures
        emulated_inverse(h, row, col) <==> exists|i: int|
            0 <= i < snapshot.highlights@.len() && covers(
                #[trigger] snapshot.highlights@[i],
                row,
                col,
            ),
{
}

/// What is left once the empty lines at the end are gone is how the lines begin, does not end in an
/// empty line, and lacks empty lines alone.
pub proof fn law_only_empty_lines_are_dropped_at_the_end(lines: Seq<Seq<char>>)
    ensures
        ({
            let kept = up_to_last_text(lines);
            &&& kept.is_prefix_of(lines)
            &&& kept.len() > 0 ==> kept.last().len() > 0
            &&& forall|i: int| kept.len() <= i < lines.len() ==> (#[trigger] lines[i]).len() == 0
        }),
    decreases lines.len(),
{
    if lines.len() > 0 && lines.last().len() == 0 {
        law_only_empty_lines_are_dropped_at_the_end(lines.drop_last());
        let kept = up_to_last_text(lines);
        assert(kept == lines.drop_last().take(kept.len() as int));
        assert(kept =~= lines.take(kept.len() as int));
        assert forall|i: int| kept.len() <= i < lines.len() implies (#[trigger] lines[i]).len()
            == 0 by {
            if i < lines.len() - 1 {
                assert(lines.drop_last()[i] == lines[i]);
            }
        }
    } else {
        assert(lines =~= lines.take(lines.len() as int));
    }
}

proof fn lemma_short_gap_at_the_end(lines: Seq<Seq<char>>)
    requires
        short_gaps(lines),
    ensures
        trailing_empty(lines) <= 2,
        short_gaps(lines.take(lines.len() - trailing_empty(lines))),
        lines == lines.take(lines.len() - trailing_empty(lines)) + empty_lines(
            trailing_empty(lines),
        ),
{
    reveal_with_fuel(trailing_empty, 4);
    let n = lines.len() as int;
    if n >= 3 {
        assert(!long_gap(lines, n - 3));
        assert(lines.drop_last().drop_last().drop_last() == lines.take(n - 3));
    }
    if n >= 1 {
        assert(lines.last() == lines[n - 1]);
        assert(lines.drop_last().len() == n - 1);
        if n >= 2 {
            assert(lines.drop_last().last() == lines[n - 2]);
            if n >= 3 {
                assert(lines.drop_last().drop_last().last() == lines[n - 3]);
            }
        }
    }
    let t = trailing_empty(lines);
    let rest = lines.take(n - t);
    assert forall|i: int| 0 <= i < rest.len() - 2 implies !#[trigger] long_gap(rest, i) by {
        assert(!long_gap(lines, i));
    }
    if t >= 1 {
        assert(lines[n - 1] =~= Seq::<char>::empty());
    }
    if t >= 2 {
        assert(lines[n - 2] =~= Seq::<char>::empty());
    }
    assert(lines =~= rest + empty_lines(t));
}

proof fn lemma_short_gaps_stay(lines: Seq<Seq<char>>)
    requires
        short_gaps(lines),
        lines.len() > 0 ==> lines.last().len() > 0,
    ensures
        collapsed_text(lines) == lines,
    decreases lines.len(),
{
    if lines.len() > 0 {
        let before = lines.drop_last();
        assert forall|i: int| 0 <= i < before.len() - 2 implies !#[trigger] long_gap(before, i) by {
            assert(!long_gap(lines, i));
        }
        lemma_short_gap_at_the_end(before);
        let t = trailing_empty(before);
        let rest = before.take(before.len() - t);
        lemma_trailing_is_whole(before);
        lemma_short_gaps_stay(rest);
        lemma_trailing_empty_after(rest, t);
        assert(collapsed_text(lines) =~= lines);
    }
}

proof fn lemma_trailing_is_whole(lines: Seq<Seq<char>>)
    ensures
        trailing_empty(lines) <= lines.len(),
        ({
            let rest = lines.take(lines.len() - trailing_empty(lines));
            rest.len() > 0 ==> rest.last().len() > 0
        }),
    decreases lines.len(),
{
    if lines.len() > 0 && lines.last().len() == 0 {
        let before = lines.drop_last();
        lemma_trailing_is_whole(before);
        assert(before.take(before.len() - trailing_empty(before)) =~= lines.take(
            lines.len() - trailing_empty(lines),
        ));
    }
}

/// Where no three lines in a row are empty, nothing is shortened.
pub proof fn law_short_gaps_are_kept(lines: Seq<Seq<char>>)
    requires
        short_gaps(lines),
    ensures
        collapsed(lines) == lines,
{
    lemma_short_gap_at_the_end(lines);
    lemma_trailing_is_whole(lines);
    let t = trailing_empty(lines);
    let rest = lines.take(lines.len() - t);
    lemma_short_gaps_stay(rest);
    lemma_trailing_empty_after(rest, t);
    assert(collapsed(lines) =~= lines);
}

proof fn lemma_long_gap(before: Seq<Seq<char>>, n: nat, after: Seq<Seq<char>>)
    requires
        before.len() > 0 ==> before.last().len() > 0,
        n >= 3,
        after.len() > 0 ==> after[0].len() > 0,
    ensures
        collapsed_text(before + empty_lines(n) + after) == collapsed_text(
            before + empty_lines(1) + after,
        ),
        after.len() > 0 ==> trailing_empty(before + empty_lines(n) + after) == trailing_empty(
            before + empty_lines(1) + after,
        ),
    decreases after.len(),
{
    let long = before + empty_lines(n) + after;
    let short = before + empty_lines(1) + after;
    lemma_trailing_empty_after(before, n);
    lemma_trailing_empty_after(before, 1);
    if after.len() == 0 {
        assert(long =~= before + empty_lines(n));
        assert(short =~= before + empty_lines(1));
    } else {
        let less = after.drop_last();
        assert(long.drop_last() =~= before + empty_lines(n) + less);
        assert(short.drop_last() =~= before + empty_lines(1) + less);
        assert(long.last() == after.last() && short.last() == after.last());
        if less.len() > 0 {
            assert(less[0] == after[0]);
        }
        lemma_long_gap(before, n, less);
        if less.len() == 0 {
            assert(after.last() == after[0]);
            assert(before + empty_lines(n) + less =~= before + empty_lines(n));
            assert(before + empty_lines(1) + less =~= before + empty_lines(1));
        }
    }
}

/// A run of three or more empty lines becomes one empty line, wherever it stands and whatever stands
/// around it.
pub proof fn law_long_gaps_become_one_line(
    before: Seq<Seq<char>>,
    n: nat,
    after: Seq<Seq<char>>,
)
    requires
        before.len() > 0 ==> before.last().len() > 0,
        n >= 3,
        after.len() > 0 ==> after[0].len() > 0,
    ensures
        collapsed(before + empty_lines(n) + after) == collapsed(before + empty_lines(1) + after),
{
    lemma_long_gap(before, n, after);
    if after.len() == 0 {
        lemma_trailing_empty_after(before, n);
        lemma_trailing_empty_after(before, 1);
        assert(before + empty_lines(n) + after =~= before + empty_lines(n));
        assert(before + empty_lines(1) + after =~= before + empty_lines(1));
    }
}

/// Rows that continue up to one that does not are one line of text: their texts one after the other,
/// with the spaces at the end where the cursor is in one of them and without them where it is not.
/// The lines of the rows below are the same without these.
pub proof fn law_wrapped_rows_are_one_line(
    line: Seq<(Seq<char>, bool)>,
    below: Seq<(Seq<char>, bool)>,
    cursor_row: int,
)
    requires
        line.len() > 0,
        forall|i: int| 0 <= i < line.len() - 1 ==> (#[trigger] line[i]).1,
        !line.last().1,
    ensures
        text_lines(line + below, cursor_row) == seq![
            if 0 <= cursor_row < line.len() {
                row_texts(line)
            } else {
                trimmed_end(row_texts(line))
            },
        ] + text_lines(below, cursor_row - line.len()),
{
    let rows = line + below;
    let n = line.len() as int;
    assert forall|i: int| 0 <= i < n - 1 implies (#[trigger] rows[i]).1 by {
        assert(rows[i] == line[i]);
    }
    assert(rows[n - 1] == line.last());
    lemma_ended_line(rows, n);
    assert(rows.take(n) =~= line);
    assert(rows.skip(n) =~= below);
}

/// A last line that never ended counts where it holds anything.
pub proof fn law_an_open_line_counts_where_it_holds_text(
    line: Seq<(Seq<char>, bool)>,
    cursor_row: int,
)
    requires
        forall|i: int| 0 <= i < line.len() ==> (#[trigger] line[i]).1,
    ensures
        text_lines(line, cursor_row) == if row_texts(line).len() == 0 {
            Seq::<Seq<char>>::empty()
        } else if 0 <= cursor_row < line.len() {
            seq![row_texts(line)]
        } else {
            seq![trimmed_end(row_texts(line))]
        },
{
    lemma_open_line(line);
    let n = line.len() as int;
    assert(line.take(n) =~= line);
    if n > 0 {
        assert(line[n - 1].1);
        assert(line.skip(n) =~= Seq::<(Seq<char>, bool)>::empty());
        assert(text_lines(line.skip(n), cursor_row - n) =~= Seq::<Seq<char>>::empty());
        assert(seq![shown(row_texts(line), 0 <= cursor_row < n)] + Seq::<Seq<char>>::empty() =~= seq![
            shown(row_texts(line), 0 <= cursor_row < n),
        ]);
    }
}

/// The texts of rows side by side.
pub proof fn law_row_texts_stand_side_by_side(rows: Seq<(Seq<char>, bool)>, row: (Seq<char>, bool))
    ensures
        row_texts(Seq::<(Seq<char>, bool)>::empty()) == Seq::<char>::empty(),
        row_texts(rows.push(row)) == row_texts(rows) + row.0,
{
    assert(rows.push(row).drop_last() =~= rows);
}

proof fn lemma_unwrapped_rows(rows: Seq<(Seq<char>, bool)>, cursor_row: int)
    requires
        forall|i: int| 0 <= i < rows.len() ==> !(#[trigger] rows[i]).1,
    ensures
        text_lines(rows, cursor_row) == Seq::new(
            rows.len(),
            |i: int|
                if i == cursor_row {
                    rows[i].0
                } else {
                    trimmed_end(rows[i].0)
                },
        ),
    decreases rows.len(),
{
    if rows.len() > 0 {
        let line = seq![rows[0]];
        let below = rows.skip(1);
        assert(line + below =~= rows);
        assert forall|i: int| 0 <= i < below.len() implies !(#[trigger] below[i]).1 by {
            assert(below[i] == rows[i + 1]);
        }
        lemma_unwrapped_rows(below, cursor_row - 1);
        law_wrapped_rows_are_one_line(line, below, cursor_row);
        law_row_texts_stand_side_by_side(Seq::empty(), rows[0]);
        assert(Seq::<(Seq<char>, bool)>::empty().push(rows[0]) =~= line);
        assert(row_texts(line) =~= rows[0].0);
    }
    assert(text_lines(rows, cursor_row) =~= Seq::new(
        rows.len(),
        |i: int|
            if i == cursor_row {
                rows[i].0
            } else {
                trimmed_end(rows[i].0)
            },
    ));
}

/// The oldest row that rendering shows: of the rows that scrolled out, the latest 4000 are shown.
pub open spec fn first_shown(h: Seq<TerminalEvent>) -> int {
    if scrolled_out(h) > 4000 {
        scrolled_out(h) - 4000
    } else {
        0
    }
}

/// The rendered text keeps the spaces at the end of the row that the emulator's cursor is in, on the
/// screen below the rows that scrolled out, and those of no other row. For rows that do not wrap: it
/// is made of one line for each row from the oldest that is shown on, with the spaces at its end for
/// that row and without them for every other.
pub proof fn law_only_the_row_of_the_cursor_keeps_its_spaces(
    bytes: Seq<u8>,
    rows: u16,
    cols: u16,
    lines: Seq<Seq<char>>,
)
    requires
        ({
            let h = fresh_history(bytes, rows, cols);
            let all = emulated_rows(h);
            let first = first_shown(h);
            &&& scrolled_out(h) >= 0
            &&& forall|e: int| first <= e < all.len() ==> !(#[trigger] all[e]).1
            &&& lines.len() == all.len() - first
            &&& forall|e: int|
                first <= e < all.len() && e != scrolled_out(h) + emulated_cursor(h).0
                    ==> #[trigger] lines[e - first] == trimmed_end(all[e].0)
            &&& emulated_cursor(h).0 < size_after(h).0 ==> lines[scrolled_out(h) + emulated_cursor(
                h,
            ).0 - first] == all[scrolled_out(h) + emulated_cursor(h).0].0
        }),
    ensures
        rendered_text(bytes, rows, cols) == joined(collapsed(up_to_last_text(lines)), "\n"@),
        rendering_drops_rows(bytes, rows, cols) <==> first_shown(
            fresh_history(bytes, rows, cols),
        ) > 0,
{
    let h = fresh_history(bytes, rows, cols);
    let all = emulated_rows(h);
    let first = first_shown(h);
    let kept = all.skip(first);
    let at = scrolled_out(h) + emulated_cursor(h).0 - first;
    assert forall|i: int| 0 <= i < kept.len() implies !(#[trigger] kept[i]).1 by {
        assert(kept[i] == all[first + i]);
    }
    lemma_unwrapped_rows(kept, at);
    assert forall|i: int| 0 <= i < lines.len() implies lines[i] == text_lines(kept, at)[i] by {
        let e = first + i;
        assert(kept[i] == all[e]);
        assert(lines[e - first] == lines[i]);
    }
    assert(lines =~= text_lines(kept, at));
}

/// Whatever rows wrap, the rendered text shows the rows from the oldest that is shown on, and takes
/// the cursor to be in the row of the emulator that it is in.
pub proof fn law_rendered_text_shows_the_emulated_rows(
    bytes: Seq<u8>,
    rows: u16,
    cols: u16,
    shown_rows: Seq<(Seq<char>, bool)>,
    cursor_row: int,
)
    requires
        ({
            let h = fresh_history(bytes, rows, cols);
            &&& scrolled_out(h) >= 0
            &&& shown_rows == emulated_rows(h).subrange(
                first_shown(h),
                emulated_rows(h).len() as int,
            )
            &&& first_shown(h) + cursor_row == scrolled_out(h) + emulated_cursor(h).0
        }),
    ensures
        rendered_text(bytes, rows, cols) == joined(
            collapsed(up_to_last_text(text_lines(shown_rows, cursor_row))),
            "\n"@,
        ),
{
    let h = fresh_history(bytes, rows, cols);
    assert(shown_rows =~= emulated_rows(h).skip(first_shown(h)));
}

/// A snapshot has each row of the screen as it is, with the spaces at its end only in the row of the
/// cursor; the rows that it leaves out at the bottom hold nothing. Its cursor and modes are those of
/// the emulator.
pub proof fn law_snapshots_show_the_screen(h: Seq<TerminalEvent>, snapshot: ScreenSnapshot)
    requires
        pictures(snapshot, h),
    ensures
        ({
            let rows = Seq::new(
                size_after(h).0 as nat,
                |i: int| emulated_rows(h)[scrolled_out(h) + i].0,
            );
            let at = emulated_cursor(h).0 as int;
            &&& snapshot.lines@.len() <= rows.len()
            &&& forall|i: int|
                0 <= i < snapshot.lines@.len() ==> (#[trigger] snapshot.lines@[i])@ == (if i == at {
                    rows[i]
                } else {
                    trimmed_end(rows[i])
                })
            &&& forall|i: int|
                snapshot.lines@.len() <= i < rows.len() ==> trimmed_end(#[trigger] rows[i]).len()
                    == 0
            &&& snapshot.lines@.len() > 0 ==> snapshot.lines@.last()@.len() > 0
        }),
        snapshot.rows == size_after(h).0,
        snapshot.cols == size_after(h).1,
        snapshot.cursor.row == emulated_cursor(h).0,
        snapshot.cursor.col == emulated_cursor(h).1,
        snapshot.cursor_visible <==> !emulated_hidden_cursor(h),
        snapshot.alternate_screen <==> emulated_alternate_screen(h),
        snapshot.application_cursor <==> emulated_application_cursor(h),
{
    let rows = Seq::new(size_after(h).0 as nat, |i: int| emulated_rows(h)[scrolled_out(h) + i].0);
    let at = emulated_cursor(h).0 as int;
    let all = Seq::new(
        size_after(h).0 as nat,
        |i: int| shown(emulated_rows(h)[scrolled_out(h) + i].0, i == emulated_cursor(h).0),
    );
    law_only_empty_lines_are_dropped_at_the_end(all);
    let kept = up_to_last_text(all);
    assert(texts(snapshot.lines@) == kept);
    assert(snapshot.lines@.len() == kept.len());
    assert forall|i: int| 0 <= i < snapshot.lines@.len() implies (#[trigger] snapshot.lines@[i])@
        == (if i == at {
        rows[i]
    } else {
        trimmed_end(rows[i])
    }) by {
        assert(texts(snapshot.lines@)[i] == snapshot.lines@[i]@);
        assert(kept[i] == all.take(kept.len() as int)[i]);
    }
    assert forall|i: int| snapshot.lines@.len() <= i < rows.len() implies trimmed_end(
        #[trigger] rows[i],
    ).len() == 0 by {
        assert(all[i].len() == 0);
    }
    if snapshot.lines@.len() > 0 {
        assert(texts(snapshot.lines@).last() == snapshot.lines@.last()@);
    }
}

/// Highlights stand from top to bottom and from left to right, and each goes as far as it can: the
/// cells just before and just behind it are not in reverse video, and it lies within one row of the
/// screen.
pub proof fn law_highlights_go_as_far_as_they_can(
    h: Seq<TerminalEvent>,
    snapshot: ScreenSnapshot,
    i: int,
    j: int,
)
    requires
        pictures(snapshot, h),
        0 <= i < j < snapshot.highlights@.len(),
    ensures
        ({
            let (a, b) = (snapshot.highlights@[i], snapshot.highlights@[j]);
            &&& a.row < b.row || (a.row == b.row && a.col + a.len < b.col)
            &&& a.len > 0 && a.row < snapshot.rows && a.col + a.len <= snapshot.cols
            &&& a.col > 0 ==> !emulated_inverse(h, a.row, (a.col - 1) as u16)
            &&& a.col + a.len < snapshot.cols ==> !emulated_inverse(
                h,
                a.row,
                (a.col + a.len) as u16,
            )
            &&& b.len > 0 && b.row < snapshot.rows && b.col + b.len <= snapshot.cols
        }),
{
    let (a, b) = (snapshot.highlights@[i], snapshot.highlights@[j]);
    assert(is_run(h, a) && is_run(h, b));
    assert(precedes(a, b));
    if a.row == b.row && a.col + a.len == b.col {
        assert(emulated_inverse(h, b.row, b.col));
        assert(!emulated_inverse(h, a.row, (a.col + a.len) as u16));
    }
}

/// Text is rendered as it is shown, a screen is pictured as it is, and rows are laid out as the lines
/// that they are.
pub proof fn law_what_rendering_gives(
    bytes: &[u8],
    rows: u16,
    cols: u16,
    r: (String, bool),
    screen: &Screen,
    end_cursor: u64,
    picture: ScreenSnapshot,
    physical: &Vec<(String, bool)>,
    cursor_row: usize,
    text: String,
    lines: Vec<String>,
    compact: Vec<String>,
)
    requires
        call_ensures(render_text, (bytes, rows, cols), r),
        call_ensures(snapshot, (screen, end_cursor), picture),
        call_ensures(layout_text, (physical, cursor_row), text),
        call_ensures(collapse_blank_runs, (lines,), compact),
    ensures
        r.0@ == rendered_text(bytes@, rows, cols),
        r.1 <==> first_shown(fresh_history(bytes@, rows, cols)) > 0,
        pictures(picture, screen@) && picture.end_cursor == end_cursor,
        text@ == joined(
            collapsed(up_to_last_text(text_lines(rows_view(physical@), cursor_row as int))),
            "\n"@,
        ),
        texts(compact@) == collapsed(texts(lines@)),
{
}

} // verus!
