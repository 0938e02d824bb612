//! An emulated screen that knows whether it can be drawn on.
use crate::emulator::{
    after_output, below, byte_by_byte, calm, character_on, closes, columns_of, drawable,
    draws_sound, emulated_alternate_screen, emulated_application_cursor, emulated_continued,
    emulated_cursor, emulated_hidden_cursor, emulated_inverse, emulated_rows, emulated_wide,
    emulator_history, emulator_offset, first_number, form, hooked, last_character, last_sequence,
    lemma_byte_by_byte, marks, marks_sound, matters, number_from, opens, output_of, passed_over,
    reach, scrolled_out, seen, sequence_on, shown, size_after, sound_row, spares, still_continued,
    still_wide, takes_all, takes_byte, trial, turning, whole, Emulator, Form, Reach, TerminalEvent,
};
use crate::render::TEXT_SCROLLBACK;
use crate::terminal::Query;
use crate::text::{decimal_bytes, digits, same};
use vstd::prelude::*;

verus! {

/// The bytes of a character that goes on with one more byte.
fn continue_character(begun: &Vec<u8>, byte: u8) -> (character: Vec<u8>)
    ensures
        character@ == character_on(begun@, byte),
{
    let mut character: Vec<u8> = Vec::new();
    if byte >= 0xc0 {
        character.push(byte);
    } else if byte >= 0x80 && begun.len() > 0 {
        let length: usize = if begun[0] < 0xe0 {
            2
        } else if begun[0] < 0xf0 {
            3
        } else {
            4
        };
        if begun.len() < length {
            character.extend_from_slice(begun.as_slice());
            character.push(byte);
        }
    }
    assert(character@ =~= character_on(begun@, byte));
    character
}

/// Whether a byte behind an escape character does not end the control sequence.
fn opening(byte: u8) -> (r: bool)
    ensures
        r == opens(byte),
{
    (0x20 <= byte && byte < 0x30) || byte == 0x50 || byte == 0x58 || byte == 0x5b || (0x5d <= byte
        && byte <= 0x5f)
}

/// Whether a device control string has come to its data.
fn is_hooked(begun: &Vec<u8>) -> (r: bool)
    ensures
        r == hooked(begun@),
{
    begun.len() > 2 && begun[begun.len() - 1] >= 0x40
}

/// Whether a device control string is passed over.
fn is_passed_over(begun: &Vec<u8>) -> (r: bool)
    ensures
        r == passed_over(begun@),
{
    if begun.len() <= 3 {
        return false;
    }
    let last: u8 = begun[begun.len() - 1];
    last < 0x40 && (last >= 0x3c || (begun[begun.len() - 2] < 0x30 && last >= 0x30))
}

/// Whether a control sequence ends with a byte.
fn closing(begun: &Vec<u8>, byte: u8) -> (r: bool)
    requires
        begun@.len() > 1,
    ensures
        r == closes(begun@, byte),
{
    let kind: u8 = begun[1];
    if kind == 0x5b {
        0x40 <= byte && byte < 0x7f
    } else if kind == 0x5d {
        byte == 0x07
    } else if kind == 0x50 {
        is_hooked(begun) && byte == 0x9c
    } else {
        kind < 0x30 && 0x30 <= byte && byte < 0x7f
    }
}

/// Whether a byte of a control sequence matters for how it goes on.
fn mattering(begun: &Vec<u8>, byte: u8) -> (r: bool)
    requires
        begun@.len() > 1,
    ensures
        r == matters(begun@, byte),
{
    if begun[1] == 0x5b {
        0x20 <= byte && byte < 0x40
    } else {
        begun[1] == 0x50 && 0x20 <= byte && byte < 0x7f && !is_hooked(begun) && !is_passed_over(
            begun,
        )
    }
}

/// Continues the bytes of a control sequence with one more byte.
fn continue_sequence(sequence: &mut Vec<u8>, byte: u8)
    ensures
        final(sequence)@ == sequence_on(old(sequence)@, byte),
{
    if byte == 0x1b {
        sequence.clear();
        sequence.push(byte);
    } else if sequence.len() == 0 || byte == 0x18 || byte == 0x1a {
        sequence.clear();
    } else if sequence.len() == 1 {
        if byte >= 0x20 && byte < 0x7f {
            if opening(byte) {
                sequence.push(byte);
            } else {
                sequence.clear();
            }
        }
    } else if closing(sequence, byte) {
        sequence.clear();
    } else if mattering(sequence, byte) {
        sequence.push(byte);
    }
    assert(sequence@ =~= sequence_on(old(sequence)@, byte));
}

/// The form of a control sequence with parameters.
fn form_of(sequence: &Vec<u8>) -> (r: Form)
    ensures
        r == form(sequence@),
{
    let mut formed = Form::Plain;
    let mut i: usize = 2;
    if sequence.len() <= 2 {
        return formed;
    }
    while i < sequence.len()
        invariant
            2 <= i <= sequence@.len(),
            formed == form(sequence@.take(i as int)),
        decreases sequence@.len() - i,
    {
        let byte: u8 = sequence[i];
        formed = match formed {
            Form::Plain => if 0x30 <= byte && byte < 0x3c {
                Form::Plain
            } else if byte == 0x3f && i == 2 {
                Form::Private
            } else {
                Form::Foreign
            },
            Form::Private => if byte < 0x30 {
                Form::Marked
            } else if byte < 0x3c {
                Form::Private
            } else {
                Form::Foreign
            },
            Form::Marked => if byte < 0x30 {
                Form::Marked
            } else {
                Form::Foreign
            },
            Form::Foreign => Form::Foreign,
        };
        i += 1;
        assert(sequence@.take(i as int).drop_last() == sequence@.take(i - 1));
        assert(sequence@.take(i as int).last() == sequence@[i - 1]);
    }
    assert(sequence@.take(i as int) == sequence@);
    formed
}

/// The first number of a control sequence.
fn number_of(sequence: &Vec<u8>) -> (number: u16)
    ensures
        number == first_number(sequence@),
{
    let mut i: usize = if sequence.len() > 2 && sequence[2] == 0x3f {
        3
    } else {
        2
    };
    let mut number: u16 = 0;
    while i < sequence.len() && 0x30 <= sequence[i] && sequence[i] < 0x3a
        invariant
            2 <= i,
            first_number(sequence@) == number_from(sequence@, i as int, number as int),
        decreases sequence@.len() - i,
    {
        let longer: u32 = 10 * (number as u32) + (sequence[i] - 0x30) as u32;
        number = if longer > 65535 {
            65535
        } else {
            longer as u16
        };
        i += 1;
    }
    number
}

/// Whether a character leaves a mark though it takes no column.
fn leaves_mark(character: &Vec<u8>) -> (r: bool)
    ensures
        r == marks(character@),
{
    let with = try_out(character);
    let without = try_out(&Vec::new());
    proof {
        assert(emulator_history(without) =~= trial(Seq::empty()));
        assert(trial(character@).drop_last().last() == trial(character@)[0]);
        assert(trial(Seq::<u8>::empty()).drop_last().last() == trial(Seq::<u8>::empty())[0]);
        reveal_with_fuel(size_after, 3);
    }
    let with_rows = with.rows();
    let without_rows = without.rows();
    !same(with_rows[0].as_str(), without_rows[0].as_str())
}

fn has_tab(bytes: &[u8]) -> (r: bool)
    ensures
        r == bytes@.contains(0x09),
{
    let mut i: usize = 0;
    while i < bytes.len()
        invariant
            i <= bytes@.len(),
            forall|j: int| 0 <= j < i ==> bytes@[j] != 0x09,
        decreases bytes@.len() - i,
    {
        if bytes[i] == 0x09 {
            return true;
        }
        i += 1;
    }
    false
}

/// What a fresh terminal has been given on which text is rendered. It has at least one row and one
/// column, and room for one row more than is kept.
pub open spec fn fresh_terminal(rows: u16, cols: u16) -> Seq<TerminalEvent> {
    seq![
        TerminalEvent::Opened {
            rows: if rows == 0 { 1 } else { rows },
            cols: if cols == 0 { 1 } else { cols },
            scrollback: (TEXT_SCROLLBACK + 1) as nat,
        },
    ]
}

/// Whether the output can be drawn on a fresh terminal of the given size.
pub open spec fn drawn_afresh(bytes: Seq<u8>, rows: u16, cols: u16) -> bool {
    drawable(fresh_terminal(rows, cols), bytes)
}

/// A fresh terminal of the given size on which text is rendered.
pub(crate) fn open_fresh(rows: u16, cols: u16) -> (screen: Screen)
    ensures
        screen.wf(),
        screen@ == fresh_terminal(rows, cols),
        whole(screen@),
{
    let rows: u16 = if rows == 0 {
        1
    } else {
        rows
    };
    let cols: u16 = if cols == 0 {
        1
    } else {
        cols
    };
    Screen::new(rows, cols, TEXT_SCROLLBACK + 1)
}

/// Checks whether the output can be drawn on a fresh terminal of the given size.
pub fn is_drawn_afresh(bytes: &[u8], rows: u16, cols: u16) -> (r: bool)
    ensures
        r == drawn_afresh(bytes@, rows, cols),
{
    let mut screen = open_fresh(rows, cols);
    if screen.is_roomy(bytes) {
        return true;
    }
    screen.process(bytes)
}

/// Draws a character on a terminal of its own, behind two columns.
fn try_out(character: &Vec<u8>) -> (terminal: Emulator)
    ensures
        emulator_history(terminal) == trial(character@),
        emulator_offset(terminal) == 0,
{
    let mut terminal = Emulator::new(2, 4, 0);
    let mut bytes: Vec<u8> = Vec::new();
    bytes.push(0x20);
    bytes.push(0x20);
    bytes.extend_from_slice(character.as_slice());
    proof {
        let opened = emulator_history(terminal);
        assert(opened.last() == opened[0]);
        assert(bytes@ =~= seq![0x20u8, 0x20u8] + character@);
        assert(opened.push(TerminalEvent::Output(bytes@)) =~= trial(character@));
    }
    terminal.process(bytes.as_slice());
    terminal
}

/// How many columns a character takes.
fn columns(character: &Vec<u8>) -> (columns: u16)
    ensures
        columns == columns_of(character@),
{
    let terminal = try_out(character);
    let (row, col) = terminal.cursor_position();
    if row > 0 {
        3
    } else if col > 2 {
        col - 2
    } else {
        0
    }
}

/// Whether every wide character of a row has its second half, and every second half its character.
fn is_sound_row(emulator: &Emulator, row: u16) -> (r: bool)
    requires
        emulator_offset(*emulator) == 0,
        row < size_after(emulator_history(*emulator)).0,
    ensures
        r == sound_row(emulator_history(*emulator), row),
{
    let (_, cols) = emulator.size();
    let ghost h = emulator_history(*emulator);
    let mut col: u16 = 0;
    while col < cols
        invariant
            col <= cols == size_after(h).1,
            h == emulator_history(*emulator),
            emulator_offset(*emulator) == 0,
            row < size_after(h).0,
            forall|c: u16|
                c < col && #[trigger] emulated_wide(h, row, c) ==> c + 1 < cols
                    && emulated_continued(h, row, (c + 1) as u16),
            forall|c: u16|
                c < col && #[trigger] emulated_continued(h, row, c) ==> c > 0 && emulated_wide(
                    h,
                    row,
                    (c - 1) as u16,
                ),
        decreases cols - col,
    {
        if emulator.is_wide(row, col) {
            if col + 1 >= cols || !emulator.is_continued(row, col + 1) {
                return false;
            }
        }
        if emulator.is_continued(row, col) {
            if col == 0 || !emulator.is_wide(row, col - 1) {
                return false;
            }
        }
        col += 1;
    }
    true
}

/// Whether all rows in view are sound.
fn is_sound(emulator: &Emulator) -> (r: bool)
    requires
        emulator_offset(*emulator) == 0,
    ensures
        r == forall|row: u16|
            row < size_after(emulator_history(*emulator)).0 ==> #[trigger] sound_row(
                emulator_history(*emulator),
                row,
            ),
{
    let (rows, _) = emulator.size();
    let mut row: u16 = 0;
    while row < rows
        invariant
            row <= rows == size_after(emulator_history(*emulator)).0,
            emulator_offset(*emulator) == 0,
            forall|above: u16|
                above < row ==> #[trigger] sound_row(emulator_history(*emulator), above),
        decreases rows - row,
    {
        if !is_sound_row(emulator, row) {
            return false;
        }
        row += 1;
    }
    true
}

/// Whether a wide character still begins in a column when the cells from another column on have
/// been touched up to it.
fn is_still_wide(emulator: &Emulator, row: u16, from: u16, column: u16) -> (r: bool)
    requires
        emulator_offset(*emulator) == 0,
        row < size_after(emulator_history(*emulator)).0,
        column < size_after(emulator_history(*emulator)).1,
    ensures
        r == still_wide(emulator_history(*emulator), row, from as int, column as int),
{
    if from > column {
        return false;
    }
    let mut at: u16 = from;
    let mut still = emulator.is_wide(row, at);
    assert(!still_wide(emulator_history(*emulator), row, from as int, from - 1));
    while at < column
        invariant
            from <= at <= column,
            emulator_offset(*emulator) == 0,
            row < size_after(emulator_history(*emulator)).0,
            column < size_after(emulator_history(*emulator)).1,
            still == still_wide(emulator_history(*emulator), row, from as int, at as int),
        decreases column - at,
    {
        at += 1;
        still = emulator.is_wide(row, at) && !still;
    }
    still
}

/// Whether no second half of a wide character comes to stand in the first column while so many
/// cells are taken out there.
fn moves_sound(emulator: &Emulator, row: u16, to: u16) -> (r: bool)
    requires
        emulator_offset(*emulator) == 0,
        row < size_after(emulator_history(*emulator)).0,
        to <= size_after(emulator_history(*emulator)).1,
    ensures
        r == forall|column: u16|
            column < to ==> !#[trigger] still_continued(
                emulator_history(*emulator),
                row,
                column as int,
            ),
{
    let ghost h = emulator_history(*emulator);
    let mut at: u16 = 0;
    let mut still = false;
    while at < to
        invariant
            at <= to,
            emulator_offset(*emulator) == 0,
            h == emulator_history(*emulator),
            row < size_after(h).0,
            to <= size_after(h).1,
            still == still_wide(h, row, 0, at - 1),
            forall|column: u16|
                column < at ==> !#[trigger] still_continued(h, row, column as int),
        decreases to - at,
    {
        if emulator.is_continued(row, at) && !still {
            assert(still_continued(h, row, at as int));
            return false;
        }
        still = emulator.is_wide(row, at) && !still;
        at += 1;
    }
    true
}

/// Whether cells of a row can be touched.
fn is_spared(emulator: &Emulator, row: u16, from: u16, to: u16, moves: bool) -> (r: bool)
    requires
        emulator_offset(*emulator) == 0,
        row < size_after(emulator_history(*emulator)).0,
        to <= size_after(emulator_history(*emulator)).1,
        size_after(emulator_history(*emulator)).1 >= 1,
    ensures
        r == spares(
            emulator_history(*emulator),
            row,
            Reach { from: from as int, to: to as int, moves },
        ),
{
    if from >= to {
        return true;
    }
    let (_, cols) = emulator.size();
    if to == cols && is_still_wide(emulator, row, from, cols - 1) {
        return false;
    }
    if from > 0 {
        return true;
    }
    if emulator.is_continued(row, 0) {
        return false;
    }
    !moves || moves_sound(emulator, row, to)
}

/// A copy that stands on the row on which a line goes on that is full.
fn step_below(emulator: &Emulator) -> (copy: Emulator)
    requires
        emulator_offset(*emulator) == 0,
        size_after(emulator_history(*emulator)).0 >= 1,
        size_after(emulator_history(*emulator)).1 >= 1,
    ensures
        emulator_history(copy) == below(emulator_history(*emulator)),
        emulator_offset(copy) == 0,
        size_after(emulator_history(copy)) == size_after(emulator_history(*emulator)),
{
    let mut copy = emulator.copy();
    let ghost copied = emulator_history(copy);
    let line: [u8; 1] = [0x0a];
    proof {
        assert(copied.drop_last() == emulator_history(*emulator));
        assert(line@ == seq![0x0au8]);
    }
    let (_, column) = copy.cursor_position();
    assert(column <= size_after(copied).1);
    copy.process(&line);
    assert(emulator_history(copy).drop_last() == copied);
    copy
}

/// A copy that shows the alternate screen, or the main one, as it stands.
fn show(emulator: &Emulator, alternate: bool) -> (copy: Emulator)
    requires
        emulator_offset(*emulator) == 0,
        size_after(emulator_history(*emulator)).0 >= 1,
        size_after(emulator_history(*emulator)).1 >= 1,
    ensures
        emulator_history(copy) == shown(emulator_history(*emulator), alternate),
        emulator_offset(copy) == 0,
        size_after(emulator_history(copy)) == size_after(emulator_history(*emulator)),
{
    let mut copy = emulator.copy();
    let ghost copied = emulator_history(copy);
    let turn: [u8; 6] = [
        0x1b,
        0x5b,
        0x3f,
        0x34,
        0x37,
        if alternate {
            0x68
        } else {
            0x6c
        },
    ];
    assert(turn@ == turning(alternate));
    assert(copied.drop_last() == emulator_history(*emulator));
    assert(turn@.take(0) == Seq::<u8>::empty());
    let mut i: usize = 0;
    while i < 6
        invariant
            i <= 6,
            turn@ == turning(alternate),
            emulator_history(copy) == byte_by_byte(copied, turn@.take(i as int)),
            emulator_offset(copy) == 0,
            output_of(copied) == Seq::<u8>::empty(),
            size_after(copied) == size_after(emulator_history(*emulator)),
            size_after(copied).0 >= 1,
            size_after(copied).1 >= 1,
            i < 6 ==> last_sequence(turn@.take(i as int)) == turn@.take(i as int),
        decreases 6 - i,
    {
        let mut one: Vec<u8> = Vec::new();
        one.push(turn[i]);
        proof {
            let part = turn@.take(i as int);
            let longer = turn@.take(i + 1);
            lemma_byte_by_byte(copied, part);
            assert(output_of(emulator_history(copy)) == part);
            assert(one@ == seq![turn@[i as int]]);
            assert(longer.drop_last() == part);
            assert(longer.last() == turn@[i as int]);
            if i + 1 < 6 {
                assert(sequence_on(part, turn@[i as int]) =~= longer);
            }
        }
        let (_, column) = copy.cursor_position();
        assert(column <= size_after(copied).1);
        copy.process(one.as_slice());
        i += 1;
    }
    proof {
        assert(turn@.take(6) == turn@);
        lemma_byte_by_byte(copied, turn@);
    }
    copy
}

/// An emulated screen. Its view is what the terminal has been given, in order.
pub struct Screen {
    emulator: Emulator,
    /// Whether nothing on it is known to be cut in half.
    whole: bool,
    /// The bytes of the character that its output ends in.
    character: Vec<u8>,
    /// The bytes of the control sequence that its output ends in.
    sequence: Vec<u8>,
}

impl View for Screen {
    type V = Seq<TerminalEvent>;

    closed spec fn view(&self) -> Seq<TerminalEvent> {
        emulator_history(self.emulator)
    }
}

/// Whether the drawing of output stopped at a byte, of those that are seen, that the emulator does
/// not take.
pub open spec fn stopped_at(
    before: Seq<TerminalEvent>,
    after: Seq<TerminalEvent>,
    bytes: Seq<u8>,
    n: int,
) -> bool {
    let given = seen(output_of(before), bytes);
    &&& 0 <= n < given.len()
    &&& takes_all(before, given.take(n))
    &&& after == byte_by_byte(before, given.take(n))
    &&& !takes_byte(after, given[n])
}

proof fn lemma_stopped(before: Seq<TerminalEvent>, bytes: Seq<u8>, n: int, m: int)
    requires
        0 <= n < m <= bytes.len(),
        !takes_byte(byte_by_byte(before, bytes.take(n)), bytes[n]),
    ensures
        !takes_all(before, bytes.take(m)),
    decreases m,
{
    assert(bytes.take(m).drop_last() == bytes.take(m - 1));
    assert(bytes.take(m).last() == bytes[m - 1]);
    if n < m - 1 {
        lemma_stopped(before, bytes, n, m - 1);
    }
}

impl Screen {
    pub closed spec fn wf(&self) -> bool {
        &&& emulator_offset(self.emulator) == 0
        &&& size_after(self@).0 >= 1
        &&& size_after(self@).1 >= 1
        &&& self.whole ==> whole(self@)
        &&& self.character@ == last_character(output_of(self@))
        &&& self.sequence@ == last_sequence(output_of(self@))
    }

    /// An empty screen with room for so many rows of scrollback.
    pub fn new(rows: u16, cols: u16, scrollback: usize) -> (screen: Screen)
        requires
            rows >= 1,
            cols >= 1,
        ensures
            screen.wf(),
            screen@ == seq![TerminalEvent::Opened { rows, cols, scrollback: scrollback as nat }],
            whole(screen@),
    {
        let screen = Screen {
            emulator: Emulator::new(rows, cols, scrollback),
            whole: true,
            character: Vec::new(),
            sequence: Vec::new(),
        };
        proof {
            let h = screen@;
            assert(h.drop_last() == Seq::<TerminalEvent>::empty());
            assert(h.last() == h[0]);
            reveal_with_fuel(output_of, 2);
        }
        screen
    }

    /// The emulator behind the screen.
    pub(crate) fn into_emulator(self) -> (emulator: Emulator)
        requires
            self.wf(),
        ensures
            emulator_history(emulator) == self@,
            emulator_offset(emulator) == 0,
    {
        self.emulator
    }

    /// Whether nothing on the main and the alternate screen is cut in half.
    fn look_whole(&mut self) -> (r: bool)
        requires
            old(self).wf(),
        ensures
            final(self).wf(),
            final(self)@ == old(self)@,
            r == whole(final(self)@),
    {
        if !self.whole {
            let main = show(&self.emulator, false);
            let other = show(&self.emulator, true);
            let sound = is_sound(&main) && is_sound(&other);
            proof {
                let h = self@;
                if whole(h) {
                    assert forall|row: u16| row < size_after(h).0 implies #[trigger] sound_row(
                        shown(h, false),
                        row,
                    ) && sound_row(shown(h, true), row) by {
                        assert(sound_row(shown(h, true), row));
                    }
                }
                if sound {
                    assert forall|alternate: bool, row: u16| row < size_after(h).0 implies
                        #[trigger] sound_row(shown(h, alternate), row) by {
                        assert(alternate || shown(h, alternate) == shown(h, false));
                    }
                }
            }
            self.whole = sound;
        }
        self.whole
    }

    /// Whether the emulator takes the bytes whatever they draw.
    pub fn is_roomy(&mut self, bytes: &[u8]) -> (r: bool)
        requires
            old(self).wf(),
        ensures
            final(self).wf(),
            final(self)@ == old(self)@,
            r == calm(final(self)@, bytes@),
    {
        let (rows, cols) = self.emulator.size();
        if rows < 2 || cols < 3 || (cols > 65527 && has_tab(bytes)) {
            return false;
        }
        self.look_whole()
    }

    /// Whether a character of so many columns can be drawn at the cursor.
    fn is_drawn_sound(&self, drawn: u16) -> (r: bool)
        requires
            self.wf(),
            0 < drawn <= size_after(self@).1,
        ensures
            r == draws_sound(self@, drawn as int),
    {
        let (rows, cols) = self.emulator.size();
        let (row, column) = self.emulator.cursor_position();
        let cells: u16 = if drawn > 2 {
            2
        } else {
            drawn
        };
        if column as u32 + drawn as u32 <= cols as u32 {
            return is_spared(&self.emulator, row, column, column + cells, false);
        }
        if is_spared(&self.emulator, row, 0, cells, false) && (row as u32 + 1 >= rows as u32
            || is_spared(&self.emulator, row + 1, 0, cells, false)) {
            return true;
        }
        let next = step_below(&self.emulator);
        let (row, _) = next.cursor_position();
        is_spared(&next, row, 0, cells, false)
    }

    /// Whether a character that takes no column can be added to the one before the cursor.
    fn is_marked_sound(&self) -> (r: bool)
        requires
            self.wf(),
        ensures
            r == marks_sound(self@),
    {
        let (_, cols) = self.emulator.size();
        let (row, column) = self.emulator.cursor_position();
        if column == 1 && self.emulator.is_continued(row, 0) {
            return false;
        }
        !(column == 0 && row > 0 && cols == 1 && self.emulator.row_wrapped(row - 1)
            && self.emulator.is_continued(row - 1, 0))
    }

    /// Whether the cells can be touched that are erased or taken out where a control sequence ends
    /// with the next byte.
    fn is_erased_sound(&self, byte: u8) -> (r: bool)
        requires
            self.wf(),
        ensures
            r == spares(
                self@,
                emulated_cursor(self@).0,
                reach(
                    self.sequence@,
                    byte,
                    emulated_cursor(self@).1 as int,
                    size_after(self@).1 as int,
                ),
            ),
    {
        let (_, cols) = self.emulator.size();
        let (row, column) = self.emulator.cursor_position();
        if self.sequence.len() < 2 || self.sequence[1] != 0x5b {
            return true;
        }
        if byte != 0x4a && byte != 0x4b && byte != 0x50 && byte != 0x58 {
            return true;
        }
        let form = form_of(&self.sequence);
        if form == Form::Foreign {
            return true;
        }
        let number = number_of(&self.sequence);
        if byte == 0x4a || byte == 0x4b {
            if number == 0 {
                return is_spared(&self.emulator, row, column, cols, false);
            }
            let to: u16 = if column < cols {
                column + 1
            } else {
                cols
            };
            return number > 1 || is_spared(&self.emulator, row, 0, to, false);
        }
        if form != Form::Plain {
            return true;
        }
        let last: u32 = column as u32 + if number == 0 {
            1
        } else {
            number as u32
        };
        let to: u16 = if last < cols as u32 {
            last as u16
        } else {
            cols
        };
        is_spared(&self.emulator, row, column, to, byte == 0x50)
    }

    /// Whether the emulator takes the next byte.
    pub fn takes(&self, byte: u8) -> (r: bool)
        requires
            self.wf(),
        ensures
            r == takes_byte(self@, byte),
    {
        let (rows, cols) = self.emulator.size();
        let (_, column) = self.emulator.cursor_position();
        let mut drawn: u16 = 0;
        if byte >= 0x20 && byte != 0x7f && self.sequence.len() == 0 {
            if byte < 0x80 {
                drawn = 1;
            } else {
                let character = continue_character(&self.character, byte);
                drawn = columns(&character);
                if drawn == 0 && leaves_mark(&character) && !self.is_marked_sound() {
                    return false;
                }
            }
        }
        if drawn > cols || (rows == 1 && column as u32 + drawn as u32 > cols as u32) {
            return false;
        }
        if byte == 0x09 && column > 65527 {
            return false;
        }
        if drawn > 0 && !self.is_drawn_sound(drawn) {
            return false;
        }
        self.is_erased_sound(byte)
    }

    /// Draws output: all of it, or up to the first byte that the emulator does not take. Says
    /// whether it drew all.
    pub fn process(&mut self, bytes: &[u8]) -> (drawn: bool)
        requires
            old(self).wf(),
        ensures
            final(self).wf(),
            drawn == drawable(old(self)@, bytes@),
            drawn ==> final(self)@ == after_output(old(self)@, bytes@),
            !drawn ==> exists|n: int| #[trigger]
                stopped_at(old(self)@, final(self)@, bytes@, n),
    {
        let ghost before = self@;
        let roomy = self.is_roomy(bytes);
        if roomy {
            let given = self.visible(bytes);
            self.emulator.process(bytes);
            proof {
                assert(self@.drop_last() == before);
            }
            self.note(Ghost(before), given.as_slice());
            return true;
        }
        let given = self.visible(bytes);
        let mut i: usize = 0;
        assert(given@.take(0) == Seq::<u8>::empty());
        while i < given.len()
            invariant
                i <= given@.len(),
                self.wf(),
                before == old(self)@,
                given@ == seen(output_of(before), bytes@),
                !calm(before, bytes@),
                self@ == byte_by_byte(before, given@.take(i as int)),
                takes_all(before, given@.take(i as int)),
            decreases given@.len() - i,
        {
            assert(given@.take(i + 1).drop_last() == given@.take(i as int));
            assert(given@.take(i + 1).last() == given@[i as int]);
            let byte: u8 = given[i];
            if !self.takes(byte) {
                proof {
                    lemma_stopped(before, given@, i as int, given@.len() as int);
                    assert(given@.take(given@.len() as int) == given@);
                    assert(stopped_at(before, self@, bytes@, i as int));
                }
                return false;
            }
            let ghost now = self@;
            let mut one: Vec<u8> = Vec::new();
            one.push(byte);
            assert(one@ == seq![byte]);
            self.emulator.process(one.as_slice());
            assert(self@.drop_last() == now);
            self.note(Ghost(now), one.as_slice());
            i += 1;
        }
        assert(given@.take(i as int) == given@);
        true
    }

    /// The bytes of more output that the emulator sees.
    fn visible(&self, bytes: &[u8]) -> (given: Vec<u8>)
        requires
            self.wf(),
        ensures
            given@ == seen(output_of(self@), bytes@),
    {
        let overlooked = self.character.len() == 1 && 0xc2 <= self.character[0]
            && self.character[0] < 0xe0 && bytes.len() >= 3 && 0x80 <= bytes[0] && bytes[0] < 0xc0
            && bytes[1] < 0x80 && bytes[2] >= 0x80;
        let mut given: Vec<u8> = Vec::new();
        given.extend_from_slice(bytes);
        if overlooked {
            let _ = given.remove(1);
        }
        given
    }

    /// Notes the character and the control sequence that new output ends in, of which the given
    /// bytes were seen.
    fn note(&mut self, Ghost(before): Ghost<Seq<TerminalEvent>>, given: &[u8])
        requires
            old(self)@.len() > 0,
            old(self)@.drop_last() == before,
            old(self)@.last() is Output,
            seen(output_of(before), old(self)@.last()->Output_0) == given@,
            emulator_offset(old(self).emulator) == 0,
            size_after(before).0 >= 1,
            size_after(before).1 >= 1,
            old(self).whole ==> whole(old(self)@),
            old(self).character@ == last_character(output_of(before)),
            old(self).sequence@ == last_sequence(output_of(before)),
        ensures
            final(self).wf(),
            final(self)@ == old(self)@,
    {
        let ghost earlier = output_of(before);
        let mut i: usize = 0;
        assert(earlier + given@.take(0) == earlier);
        while i < given.len()
            invariant
                i <= given@.len(),
                self@ == old(self)@,
                self.emulator == old(self).emulator,
                self.whole == old(self).whole,
                self.character@ == last_character(earlier + given@.take(i as int)),
                self.sequence@ == last_sequence(earlier + given@.take(i as int)),
            decreases given@.len() - i,
        {
            self.character = if self.sequence.len() > 0 {
                Vec::new()
            } else {
                continue_character(&self.character, given[i])
            };
            continue_sequence(&mut self.sequence, given[i]);
            i += 1;
            assert((earlier + given@.take(i as int)).drop_last() == earlier + given@.take(i - 1));
            assert((earlier + given@.take(i as int)).last() == given@[i - 1]);
        }
        assert(given@.take(i as int) == given@);
    }

    /// Gives the screen a new size.
    pub fn resize(&mut self, rows: u16, cols: u16)
        requires
            old(self).wf(),
            rows >= 1,
            cols >= 1,
        ensures
            final(self).wf(),
            final(self)@ == old(self)@.push(TerminalEvent::Resized { rows, cols }),
    {
        let ghost before = self@;
        self.emulator.set_size(rows, cols);
        // Whether that cut anything in half is looked at when it matters.
        self.whole = false;
        assert(self@.drop_last() == before);
    }

    pub fn size(&self) -> (size: (u16, u16))
        ensures
            size == size_after(self@),
    {
        self.emulator.size()
    }

    /// The row and column of the cursor.
    pub fn cursor_position(&self) -> (position: (u16, u16))
        ensures
            position == emulated_cursor(self@),
            position.0 < size_after(self@).0,
            position.1 <= size_after(self@).1,
    {
        self.emulator.cursor_position()
    }

    /// Whether the application enabled cursor-key mode, which changes arrow key encoding.
    pub fn application_cursor(&self) -> (r: bool)
        ensures
            r == emulated_application_cursor(self@),
    {
        self.emulator.application_cursor()
    }

    /// Whether a full-screen program is using the alternate screen.
    pub fn alternate_screen(&self) -> (r: bool)
        ensures
            r == emulated_alternate_screen(self@),
    {
        self.emulator.alternate_screen()
    }

    pub fn cursor_visible(&self) -> (r: bool)
        ensures
            r == !emulated_hidden_cursor(self@),
    {
        !self.emulator.hide_cursor()
    }

    /// Whether a cell is in reverse video.
    pub fn inverse(&self, row: u16, col: u16) -> (r: bool)
        requires
            self.wf(),
            row < size_after(self@).0,
            col < size_after(self@).1,
        ensures
            r == emulated_inverse(self@, row, col),
    {
        self.emulator.inverse(row, col)
    }

    /// The text of each row of the screen, top to bottom.
    pub fn lines(&self) -> (lines: Vec<String>)
        requires
            self.wf(),
        ensures
            lines@.len() == size_after(self@).0,
            forall|i: int|
                0 <= i < lines@.len() ==> (#[trigger] lines@[i])@ == emulated_rows(
                    self@,
                )[scrolled_out(self@) + i].0,
    {
        self.emulator.rows()
    }
}

/// The answer to a query from a screen with the cursor at the given row and column, counted from
/// zero.
pub open spec fn answer_text(query: Query, row: u16, col: u16) -> Seq<u8> {
    match query {
        Query::Status => seq![0x1b, 0x5b, 0x30, 0x6e],
        Query::CursorPosition => seq![0x1b, 0x5b] + digits((row + 1) as nat) + seq![0x3b] + digits(
            (col + 1) as nat,
        ) + seq![0x52],
        Query::ExtendedCursorPosition => seq![0x1b, 0x5b, 0x3f] + digits((row + 1) as nat) + seq![
            0x3b,
        ] + digits((col + 1) as nat) + seq![0x52],
        Query::PrimaryAttributes => seq![0x1b, 0x5b, 0x3f, 0x31, 0x3b, 0x32, 0x63],
    }
}

impl Query {
    /// The answer for the given cursor position.
    pub fn answer_at(self, row: u16, col: u16) -> (bytes: Vec<u8>)
        ensures
            bytes@ == answer_text(self, row, col),
    {
        let mut bytes: Vec<u8> = Vec::new();
        bytes.push(0x1b);
        bytes.push(0x5b);
        match self {
            Query::Status => {
                bytes.push(0x30);
                bytes.push(0x6e);
            },
            Query::PrimaryAttributes => {
                // VT100 with advanced video.
                bytes.push(0x3f);
                bytes.push(0x31);
                bytes.push(0x3b);
                bytes.push(0x32);
                bytes.push(0x63);
            },
            Query::CursorPosition | Query::ExtendedCursorPosition => {
                if self == Query::ExtendedCursorPosition {
                    bytes.push(0x3f);
                }
                let mut number = decimal_bytes(row as u64 + 1);
                bytes.append(&mut number);
                bytes.push(0x3b);
                let mut number = decimal_bytes(col as u64 + 1);
                bytes.append(&mut number);
                bytes.push(0x52);
            },
        }
        assert(bytes@ =~= answer_text(self, row, col));
        bytes
    }

    /// Answers from the screen after every byte preceding the query was applied.
    pub fn answer(self, screen: &Screen) -> (bytes: Vec<u8>)
        ensures
            bytes@ == answer_text(self, emulated_cursor(screen@).0, emulated_cursor(screen@).1),
    {
        let (row, col) = screen.cursor_position();
        self.answer_at(row, col)
    }
}

/// A query for the status is answered that all is well, one for the attributes that this is a VT100
/// with advanced video, and one for the cursor with its row and column counted from one, as decimal
/// numbers; the extended form differs by a question mark.
pub proof fn law_answers_to_queries(row: u16, col: u16)
    ensures
        answer_text(Query::Status, row, col) == seq![0x1bu8, 0x5b, 0x30, 0x6e],
        answer_text(Query::PrimaryAttributes, row, col) == seq![
            0x1bu8,
            0x5b,
            0x3f,
            0x31,
            0x3b,
            0x32,
            0x63,
        ],
        ({
            let numbers = digits(row as nat + 1) + seq![0x3bu8] + digits(col as nat + 1) + seq![
                0x52u8,
            ];
            &&& answer_text(Query::CursorPosition, row, col) == seq![0x1bu8, 0x5b] + numbers
            &&& answer_text(Query::ExtendedCursorPosition, row, col) == seq![0x1bu8, 0x5b, 0x3f]
                + numbers
        }),
{
    let numbers = digits(row as nat + 1) + seq![0x3bu8] + digits(col as nat + 1) + seq![0x52u8];
    assert(answer_text(Query::CursorPosition, row, col) =~= seq![0x1bu8, 0x5b] + numbers);
    assert(answer_text(Query::ExtendedCursorPosition, row, col) =~= seq![0x1bu8, 0x5b, 0x3f]
        + numbers);
}

/// Text is rendered on a terminal of the size asked for, with one row or column where there would be
/// none, which has been given nothing and keeps one row more than is shown above the screen.
pub proof fn law_text_is_rendered_on_a_fresh_terminal(rows: u16, cols: u16)
    ensures
        ({
            let opened = fresh_terminal(rows, cols);
            &&& opened.len() == 1
            &&& opened[0] is Opened
            &&& rows > 0 ==> size_after(opened).0 == rows
            &&& rows == 0 ==> size_after(opened).0 == 1
            &&& cols > 0 ==> size_after(opened).1 == cols
            &&& cols == 0 ==> size_after(opened).1 == 1
            &&& crate::emulator::scrollback_room(opened) == 4001
        }),
{
    assert(fresh_terminal(rows, cols).last() == fresh_terminal(rows, cols)[0]);
}

/// A screen draws output exactly where it can be drawn, and otherwise stops at the first byte that it
/// cannot take; a query is answered from where its cursor is.
pub proof fn law_what_screens_draw(
    screen: &Screen,
    byte: u8,
    taken: bool,
    query: Query,
    answer: Vec<u8>,
    bytes: &[u8],
    rows: u16,
    cols: u16,
    afresh: bool,
)
    requires
        call_ensures(Screen::takes, (screen, byte), taken),
        call_ensures(Query::answer, (query, screen), answer),
        call_ensures(is_drawn_afresh, (bytes, rows, cols), afresh),
    ensures
        taken <==> takes_byte(screen@, byte),
        answer@ == answer_text(query, emulated_cursor(screen@).0, emulated_cursor(screen@).1),
        afresh <==> drawable(fresh_terminal(rows, cols), bytes@),
        forall|drawn_on: &mut Screen, output: &[u8], drawn: bool|
            #[trigger] call_ensures(Screen::process, (drawn_on, output), drawn) ==> {
                &&& drawn <==> drawable(drawn_on@, output@)
                &&& drawn ==> final(drawn_on)@ == after_output(drawn_on@, output@)
            },
{
}

/// Where the drawing of output stops, the screen has been given the bytes before, one by one, each of
/// which it took, and it does not take the next.
pub proof fn law_where_drawing_stops(
    before: Seq<TerminalEvent>,
    after: Seq<TerminalEvent>,
    bytes: Seq<u8>,
    n: int,
)
    requires
        stopped_at(before, after, bytes, n),
    ensures
        ({
            let given = seen(output_of(before), bytes);
            &&& 0 <= n < given.len()
            &&& output_of(after) == output_of(before) + given.subrange(0, n)
            &&& after.len() == before.len() + n
            &&& size_after(after) == size_after(before)
            &&& takes_all(before, given.subrange(0, n))
            &&& !takes_byte(after, given[n])
            &&& !takes_all(before, given.subrange(0, n + 1))
        }),
{
    let given = seen(output_of(before), bytes);
    assert(given.subrange(0, n) =~= given.take(n));
    lemma_byte_by_byte(before, given.take(n));
    let more = given.subrange(0, n + 1);
    assert(more.drop_last() =~= given.take(n));
    assert(more.last() == given[n]);
}

} // verus!
