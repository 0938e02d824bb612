//! The terminal emulator of the `vt100` crate, seen as the events that it has been given.
//!
//! An emulator is deterministic: what it shows is decided by the size and scrollback it was
//! opened with and by the output and the new sizes it was given since, in order. That history is
//! the model of an emulator here, and everything read from one is a function of it.
use crate::text::value_of;
use vstd::prelude::*;

verus! {

/// One thing that happened to a terminal.
pub enum TerminalEvent {
    /// It was opened with a size and room for so many rows of scrollback.
    Opened { rows: u16, cols: u16, scrollback: nat },
    /// It was given output.
    Output(Seq<u8>),
    /// It was given a new size.
    Resized { rows: u16, cols: u16 },
    /// A copy was made of it, which looks the same and has been given no output of its own.
    Copied,
}

/// The size, as rows and columns, after the given events.
pub open spec fn size_after(history: Seq<TerminalEvent>) -> (u16, u16)
    decreases history.len(),
{
    if history.len() == 0 {
        (0, 0)
    } else {
        match history.last() {
            TerminalEvent::Opened { rows, cols, .. } => (rows, cols),
            TerminalEvent::Resized { rows, cols } => (rows, cols),
            _ => size_after(history.drop_last()),
        }
    }
}

/// How many rows of scrollback a terminal was opened with.
pub open spec fn scrollback_room(history: Seq<TerminalEvent>) -> nat {
    match history[0] {
        TerminalEvent::Opened { scrollback, .. } => scrollback,
        _ => 0,
    }
}

/// A fresh terminal of two rows and four columns on which two columns and then a character were
/// drawn.
pub open spec fn trial(character: Seq<u8>) -> Seq<TerminalEvent> {
    seq![
        TerminalEvent::Opened { rows: 2, cols: 4, scrollback: 0 },
        TerminalEvent::Output(seq![0x20u8, 0x20u8] + character),
    ]
}

/// How many columns a character takes, by how far the cursor gets in its trial: a character that
/// does not fit in the two columns left there goes to the next row.
pub open spec fn columns_of(character: Seq<u8>) -> int {
    let (row, col) = emulated_cursor(trial(character));
    if row > 0 {
        3
    } else if col > 2 {
        col - 2
    } else {
        0
    }
}

/// Whether a byte behind an escape character does not end the control sequence: it begins
/// parameters, a string or an intermediate byte.
pub open spec fn opens(byte: u8) -> bool {
    ||| 0x20 <= byte < 0x30
    ||| byte == 0x50
    ||| byte == 0x58
    ||| 0x5b == byte
    ||| 0x5d <= byte <= 0x5f
}

/// Whether a device control string has come to its data.
pub open spec fn hooked(begun: Seq<u8>) -> bool {
    begun.len() > 2 && begun.last() >= 0x40
}

/// Whether a device control string is passed over, as its parameters make no sense: a private mark
/// that does not come first, or a parameter behind an intermediate byte.
pub open spec fn passed_over(begun: Seq<u8>) -> bool {
    begun.len() > 3 && begun.last() < 0x40 && (begun.last() >= 0x3c || (begun[begun.len() - 2] < 0x30
        && begun.last() >= 0x30))
}

/// Whether a control sequence ends with a byte. One with parameters ends with a letter, a string
/// with a bell or a terminator of its own, any other with what it selects.
pub open spec fn closes(begun: Seq<u8>, byte: u8) -> bool {
    if begun[1] == 0x5b {
        0x40 <= byte < 0x7f
    } else if begun[1] == 0x5d {
        byte == 0x07
    } else if begun[1] == 0x50 {
        hooked(begun) && byte == 0x9c
    } else {
        begun[1] < 0x30 && 0x30 <= byte < 0x7f
    }
}

/// Whether a byte of a control sequence matters for how it goes on.
pub open spec fn matters(begun: Seq<u8>, byte: u8) -> bool {
    if begun[1] == 0x5b {
        0x20 <= byte < 0x40
    } else {
        begun[1] == 0x50 && 0x20 <= byte < 0x7f && !hooked(begun) && !passed_over(begun)
    }
}

/// The bytes of a control sequence that goes on with one more byte, as far as they matter: nothing
/// where there is none, or it has ended. Any can be broken off, and begun anew by an escape
/// character.
pub open spec fn sequence_on(begun: Seq<u8>, byte: u8) -> Seq<u8> {
    if byte == 0x1b {
        seq![byte]
    } else if begun.len() == 0 || byte == 0x18 || byte == 0x1a {
        Seq::empty()
    } else if begun.len() == 1 {
        if byte < 0x20 || byte >= 0x7f {
            begun
        } else if opens(byte) {
            begun.push(byte)
        } else {
            Seq::empty()
        }
    } else if closes(begun, byte) {
        Seq::empty()
    } else if matters(begun, byte) {
        begun.push(byte)
    } else {
        begun
    }
}

/// The bytes of the control sequence that some output ends in, as far as it goes.
pub open spec fn last_sequence(bytes: Seq<u8>) -> Seq<u8>
    decreases bytes.len(),
{
    if bytes.len() == 0 {
        Seq::empty()
    } else {
        sequence_on(last_sequence(bytes.drop_last()), bytes.last())
    }
}

/// How many bytes a character has that begins with the given byte.
pub open spec fn character_length(first: u8) -> int {
    if first < 0xe0 {
        2
    } else if first < 0xf0 {
        3
    } else {
        4
    }
}

/// The bytes of a character that goes on with one more byte: nothing where they begin or continue
/// none.
pub open spec fn character_on(begun: Seq<u8>, byte: u8) -> Seq<u8> {
    if byte >= 0xc0 {
        seq![byte]
    } else if byte >= 0x80 && 0 < begun.len() < character_length(begun[0]) {
        begun.push(byte)
    } else {
        Seq::empty()
    }
}

/// The bytes of the character beyond ASCII that some output ends in, as far as it goes. There is
/// none in a control sequence.
pub open spec fn last_character(bytes: Seq<u8>) -> Seq<u8>
    decreases bytes.len(),
{
    if bytes.len() == 0 || last_sequence(bytes.drop_last()).len() > 0 {
        Seq::empty()
    } else {
        character_on(last_character(bytes.drop_last()), bytes.last())
    }
}

/// Whether the emulator overlooks the second byte of output that comes when it has the first byte of
/// a character of two: it does where that byte is ASCII, the one before it completes the character
/// and the one behind it is not ASCII.
pub open spec fn overlooks(character: Seq<u8>, bytes: Seq<u8>) -> bool {
    &&& character.len() == 1
    &&& 0xc2 <= character[0] < 0xe0
    &&& bytes.len() >= 3
    &&& 0x80 <= bytes[0] < 0xc0
    &&& bytes[1] < 0x80
    &&& bytes[2] >= 0x80
}

/// What the emulator sees of more output, after all that it has seen.
pub open spec fn seen(output: Seq<u8>, bytes: Seq<u8>) -> Seq<u8> {
    if overlooks(last_character(output), bytes) {
        bytes.remove(1)
    } else {
        bytes
    }
}

/// All the output among the given events that was seen, in order. A copy has been given none.
pub open spec fn output_of(history: Seq<TerminalEvent>) -> Seq<u8>
    decreases history.len(),
{
    if history.len() == 0 {
        Seq::empty()
    } else {
        match history.last() {
            TerminalEvent::Output(bytes) => output_of(history.drop_last()) + seen(
                output_of(history.drop_last()),
                bytes,
            ),
            TerminalEvent::Copied => Seq::empty(),
            _ => output_of(history.drop_last()),
        }
    }
}

/// Whether the next byte may draw. Control characters do not, nor do the bytes of a control
/// sequence.
pub open spec fn draws(history: Seq<TerminalEvent>, byte: u8) -> bool {
    byte >= 0x20 && byte != 0x7f && last_sequence(output_of(history)).len() == 0
}

/// How many columns the next byte draws at most.
pub open spec fn columns_drawn(history: Seq<TerminalEvent>, byte: u8) -> int {
    if !draws(history, byte) {
        0
    } else if byte < 0x80 {
        1
    } else {
        columns_of(character_on(last_character(output_of(history)), byte))
    }
}

/// Whether a character leaves a mark though it takes no column, as an accent does: the text of its
/// trial differs from that of no character.
pub open spec fn marks(character: Seq<u8>) -> bool {
    let (with, without) = (trial(character), trial(Seq::empty()));
    emulated_rows(with)[scrolled_out(with)].0 != emulated_rows(without)[scrolled_out(without)].0
}

/// The form of a control sequence with parameters.
#[derive(Debug, Clone, Copy, PartialEq, Eq, Structural)]
pub enum Form {
    /// Numbers and their separators only.
    Plain,
    /// A question mark before them.
    Private,
    /// And intermediate bytes behind them.
    Marked,
    /// Any other, which is not understood.
    Foreign,
}

/// The form of a control sequence, from its third byte on.
pub open spec fn form(sequence: Seq<u8>) -> Form
    decreases sequence.len(),
{
    if sequence.len() <= 2 {
        Form::Plain
    } else {
        let byte = sequence.last();
        match form(sequence.drop_last()) {
            Form::Plain => if 0x30 <= byte < 0x3c {
                Form::Plain
            } else if byte == 0x3f && sequence.len() == 3 {
                Form::Private
            } else {
                Form::Foreign
            },
            Form::Private => if byte < 0x30 {
                Form::Marked
            } else if byte < 0x3c {
                Form::Private
            } else {
                Form::Foreign
            },
            Form::Marked => if byte < 0x30 {
                Form::Marked
            } else {
                Form::Foreign
            },
            Form::Foreign => Form::Foreign,
        }
    }
}

/// The number that a control sequence gives first, from a byte on and behind the given digits. It is
/// at most the largest of 16 bits.
pub open spec fn number_from(sequence: Seq<u8>, i: int, number: int) -> int
    decreases sequence.len() - i,
{
    if i < 0 || i >= sequence.len() || !(0x30 <= sequence[i] < 0x3a) {
        number
    } else {
        let longer = 10 * number + sequence[i] - 0x30;
        number_from(
            sequence,
            i + 1,
            if longer > 65535 {
                65535
            } else {
                longer
            },
        )
    }
}

/// The first number of a control sequence; zero where it gives none.
pub open spec fn first_number(sequence: Seq<u8>) -> int {
    number_from(
        sequence,
        if sequence.len() > 2 && sequence[2] == 0x3f {
            3
        } else {
            2
        },
        0,
    )
}

/// The cells of the cursor's row that are touched one after the other: those from one column up to
/// another.
pub struct Reach {
    pub from: int,
    pub to: int,
    /// Whether they are taken out, so that those behind them move up.
    pub moves: bool,
}

/// The cells of the cursor's row that are erased or taken out where a control sequence ends with the
/// next byte, with the cursor in the given column: up to the end of the row, up to the cursor, or so
/// many.
pub open spec fn reach(sequence: Seq<u8>, byte: u8, column: int, cols: int) -> Reach {
    let nothing = Reach { from: 0, to: 0, moves: false };
    let number = first_number(sequence);
    let last = if number == 0 {
        column + 1
    } else {
        column + number
    };
    if sequence.len() < 2 || sequence[1] != 0x5b || form(sequence) == Form::Foreign {
        nothing
    } else if byte == 0x4a || byte == 0x4b {
        if number == 0 {
            Reach { from: column, to: cols, moves: false }
        } else if number == 1 {
            Reach {
                from: 0,
                to: if column < cols {
                    column + 1
                } else {
                    cols
                },
                moves: false,
            }
        } else {
            nothing
        }
    } else if (byte == 0x50 || byte == 0x58) && form(sequence) == Form::Plain {
        Reach {
            from: column,
            to: if last < cols {
                last
            } else {
                cols
            },
            moves: byte == 0x50,
        }
    } else {
        nothing
    }
}

/// Whether every wide character of a row has its second half behind it, and every second half its
/// character before it.
pub open spec fn sound_row(history: Seq<TerminalEvent>, row: u16) -> bool {
    let cols = size_after(history).1;
    &&& forall|col: u16|
        col < cols && #[trigger] emulated_wide(history, row, col) ==> col + 1 < cols
            && emulated_continued(history, row, (col + 1) as u16)
    &&& forall|col: u16|
        col < cols && #[trigger] emulated_continued(history, row, col) ==> col > 0
            && emulated_wide(history, row, (col - 1) as u16)
}

/// The control sequence that turns to the alternate screen, or to the main one, and changes nothing
/// else.
pub open spec fn turning(alternate: bool) -> Seq<u8> {
    seq![
        0x1b,
        0x5b,
        0x3f,
        0x34,
        0x37,
        if alternate {
            0x68
        } else {
            0x6c
        },
    ]
}

/// What a copy has been given that shows the alternate screen, or the main one, as it stands.
pub open spec fn shown(history: Seq<TerminalEvent>, alternate: bool) -> Seq<TerminalEvent> {
    byte_by_byte(history.push(TerminalEvent::Copied), turning(alternate))
}

/// Whether all rows of the main and of the alternate screen are sound. A narrower size can cut a
/// wide character in half.
pub open spec fn whole(history: Seq<TerminalEvent>) -> bool {
    forall|alternate: bool, row: u16|
        row < size_after(history).0 ==> #[trigger] sound_row(shown(history, alternate), row)
}

/// Whether a wide character still begins in a column when the cells from another column on have
/// been touched up to it: touching the first half of one clears the cell behind it.
pub open spec fn still_wide(history: Seq<TerminalEvent>, row: u16, from: int, column: int) -> bool
    decreases column - from + 1,
{
    from <= column && emulated_wide(history, row, column as u16) && !still_wide(
        history,
        row,
        from,
        column - 1,
    )
}

/// Whether the second half of a wide character still stands in a column when the cells from the
/// first on have been touched up to it.
pub open spec fn still_continued(history: Seq<TerminalEvent>, row: u16, column: int) -> bool {
    emulated_continued(history, row, column as u16) && !still_wide(history, row, 0, column - 1)
}

/// Whether cells of a row can be touched: none that is the first half of a wide character in the
/// last column, and none that is, or comes to be, a second half in the first column. There the other
/// half would lie beyond the row.
pub open spec fn spares(history: Seq<TerminalEvent>, row: u16, reach: Reach) -> bool {
    let cols = size_after(history).1;
    reach.from < reach.to ==> {
        &&& reach.to == cols ==> !still_wide(history, row, reach.from, cols - 1)
        &&& reach.from == 0 ==> !emulated_continued(history, row, 0)
        &&& reach.from == 0 && reach.moves ==> forall|column: u16|
            column < reach.to ==> !#[trigger] still_continued(history, row, column as int)
    }
}

/// What a copy has been given that stands on the row on which a line goes on that is full.
pub open spec fn below(history: Seq<TerminalEvent>) -> Seq<TerminalEvent> {
    history.push(TerminalEvent::Copied).push(TerminalEvent::Output(seq![0x0au8]))
}

/// Whether a character of so many columns can be drawn at the cursor. It touches two cells at most.
/// Where it does not fit it is drawn at the beginning of another row: mostly the next, sometimes a
/// new one, and the same where it is the last and does not scroll.
pub open spec fn draws_sound(history: Seq<TerminalEvent>, drawn: int) -> bool {
    let (rows, cols) = size_after(history);
    let (row, column) = emulated_cursor(history);
    let cells = if drawn > 2 {
        2
    } else {
        drawn
    };
    let fresh = Reach { from: 0, to: cells, moves: false };
    if column + drawn <= cols {
        spares(history, row, Reach { from: column as int, to: column + cells, moves: false })
    } else {
        ||| spares(history, row, fresh) && (row + 1 < rows ==> spares(
            history,
            (row + 1) as u16,
            fresh,
        ))
        ||| spares(below(history), emulated_cursor(below(history)).0, fresh)
    }
}

/// Whether a character that takes no column can be added to the one before the cursor: to its first
/// half where the second stands there.
pub open spec fn marks_sound(history: Seq<TerminalEvent>) -> bool {
    let (row, column) = emulated_cursor(history);
    &&& column == 1 ==> !emulated_continued(history, row, 0)
    &&& column == 0 && row > 0 && size_after(history).1 == 1 && emulated_rows(
        history,
    )[scrolled_out(history) + row - 1].1 ==> !emulated_continued(history, (row - 1) as u16, 0)
}

/// Whether the emulator takes the next byte, as its screen and cursor stand. It fails where a line
/// wraps on a single row, where a character is wider than the screen, where it touches half of a
/// wide character whose other half was cut off at the end of the row, and where a tab meets one of
/// the last columns of the 16-bit range.
pub open spec fn takes_byte(history: Seq<TerminalEvent>, byte: u8) -> bool {
    let (rows, cols) = size_after(history);
    let (row, column) = emulated_cursor(history);
    let drawn = columns_drawn(history, byte);
    &&& rows >= 1
    &&& cols >= 1
    &&& drawn <= cols
    &&& rows == 1 ==> column + drawn <= cols
    &&& byte == 0x09 ==> column <= 65527
    &&& drawn > 0 ==> draws_sound(history, drawn)
    &&& draws(history, byte) && byte >= 0x80 && drawn == 0 && marks(
        character_on(last_character(output_of(history)), byte),
    ) ==> marks_sound(history)
    &&& spares(
        history,
        row,
        reach(last_sequence(output_of(history)), byte, column as int, cols as int),
    )
}

/// What a terminal has been given once it was given the bytes one by one.
pub open spec fn byte_by_byte(history: Seq<TerminalEvent>, bytes: Seq<u8>) -> Seq<TerminalEvent>
    decreases bytes.len(),
{
    if bytes.len() == 0 {
        history
    } else {
        byte_by_byte(history, bytes.drop_last()).push(TerminalEvent::Output(seq![bytes.last()]))
    }
}

/// Whether the emulator takes the bytes one by one.
pub open spec fn takes_all(history: Seq<TerminalEvent>, bytes: Seq<u8>) -> bool
    decreases bytes.len(),
{
    bytes.len() == 0 || (takes_all(history, bytes.drop_last()) && takes_byte(
        byte_by_byte(history, bytes.drop_last()),
        bytes.last(),
    ))
}

/// Whether the emulator takes the bytes whatever they draw: the terminal has rows and columns
/// enough, and nothing on it is cut in half.
pub open spec fn calm(history: Seq<TerminalEvent>, bytes: Seq<u8>) -> bool {
    let (rows, cols) = size_after(history);
    &&& rows >= 2
    &&& cols >= 3
    &&& cols > 65527 ==> !bytes.contains(0x09)
    &&& whole(history)
}

/// Whether output can be drawn after the given events.
pub open spec fn drawable(history: Seq<TerminalEvent>, bytes: Seq<u8>) -> bool {
    calm(history, bytes) || takes_all(history, seen(output_of(history), bytes))
}

/// What a terminal has been given once output was drawn: all of it at once where nothing can go
/// wrong, else byte by byte, as far as it would be seen at once.
pub open spec fn after_output(history: Seq<TerminalEvent>, bytes: Seq<u8>) -> Seq<TerminalEvent> {
    if calm(history, bytes) {
        history.push(TerminalEvent::Output(bytes))
    } else {
        byte_by_byte(history, seen(output_of(history), bytes))
    }
}

/// Output changes neither the size nor what came before.
pub proof fn lemma_byte_by_byte(history: Seq<TerminalEvent>, bytes: Seq<u8>)
    ensures
        size_after(byte_by_byte(history, bytes)) == size_after(history),
        output_of(byte_by_byte(history, bytes)) == output_of(history) + bytes,
        byte_by_byte(history, bytes).len() == history.len() + bytes.len(),
        history.len() > 0 ==> byte_by_byte(history, bytes)[0] == history[0],
    decreases bytes.len(),
{
    if bytes.len() == 0 {
        assert(output_of(history) + bytes == output_of(history));
    } else {
        lemma_byte_by_byte(history, bytes.drop_last());
        let before = byte_by_byte(history, bytes.drop_last());
        assert(byte_by_byte(history, bytes).drop_last() == before);
        assert(seen(output_of(before), seq![bytes.last()]) == seq![bytes.last()]);
        assert(output_of(before) + seq![bytes.last()] =~= output_of(history) + bytes);
    }
}

/// Output changes neither the size nor what came before.
pub proof fn lemma_after_output(history: Seq<TerminalEvent>, bytes: Seq<u8>)
    ensures
        size_after(after_output(history, bytes)) == size_after(history),
        history.len() > 0 ==> after_output(history, bytes).len() > 0 && after_output(
            history,
            bytes,
        )[0] == history[0],
{
    lemma_byte_by_byte(history, seen(output_of(history), bytes));
    if calm(history, bytes) {
        assert(after_output(history, bytes).drop_last() == history);
    }
}

/// What can be drawn as a whole on a terminal that has been given nothing can be drawn in part.
pub proof fn lemma_start_is_drawable(history: Seq<TerminalEvent>, bytes: Seq<u8>, n: int)
    requires
        output_of(history).len() == 0,
        drawable(history, bytes),
        0 <= n <= bytes.len(),
    ensures
        drawable(history, bytes.take(n)),
    decreases bytes.len(),
{
    if n == bytes.len() {
        assert(bytes.take(n) == bytes);
    } else if calm(history, bytes) {
        let part = bytes.take(n);
        if part.contains(0x09) {
            let i = choose|i: int| 0 <= i < part.len() && part[i] == 0x09;
            assert(bytes[i] == 0x09);
        }
    } else {
        lemma_start_is_drawable(history, bytes.drop_last(), n);
        assert(bytes.drop_last().take(n) == bytes.take(n));
    }
}

/// A `vt100::Parser`: an emulated terminal.
#[verifier::external_body]
pub struct Emulator {
    parser: vt100::Parser,
}

/// What an emulator has been given, in order.
pub uninterp spec fn emulator_history(emulator: Emulator) -> Seq<TerminalEvent>;

/// How many rows an emulator is scrolled back.
pub uninterp spec fn emulator_offset(emulator: Emulator) -> nat;

/// The rows that an emulator retains after the given events, oldest first: those scrolled out at
/// the top, then those of the screen. Of each, its text and whether it continues on the next row.
pub uninterp spec fn emulated_rows(history: Seq<TerminalEvent>) -> Seq<(Seq<char>, bool)>;

/// The row and column of the cursor after the given events.
pub uninterp spec fn emulated_cursor(history: Seq<TerminalEvent>) -> (u16, u16);

/// Whether the cell in the given row and column of the screen is in reverse video.
pub uninterp spec fn emulated_inverse(history: Seq<TerminalEvent>, row: u16, col: u16) -> bool;

/// Whether a character more than one column wide begins in the given row and column of the screen.
pub uninterp spec fn emulated_wide(history: Seq<TerminalEvent>, row: u16, col: u16) -> bool;

/// Whether the given row and column of the screen hold the second half of a wide character.
pub uninterp spec fn emulated_continued(history: Seq<TerminalEvent>, row: u16, col: u16) -> bool;

/// Whether the cursor is hidden after the given events.
pub uninterp spec fn emulated_hidden_cursor(history: Seq<TerminalEvent>) -> bool;

/// Whether the alternate screen is in use after the given events.
pub uninterp spec fn emulated_alternate_screen(history: Seq<TerminalEvent>) -> bool;

/// Whether cursor-key mode is on after the given events.
pub uninterp spec fn emulated_application_cursor(history: Seq<TerminalEvent>) -> bool;

/// How many rows have scrolled out at the top and are retained.
pub open spec fn scrolled_out(history: Seq<TerminalEvent>) -> int {
    emulated_rows(history).len() - size_after(history).0
}

impl Emulator {
    /// `vt100::Parser::new`: an emulator of the given size that has been given no output and is
    /// not scrolled back. Its screens are blank, so nothing on them is cut in half.
    #[verifier::external_body]
    pub(crate) fn new(rows: u16, cols: u16, scrollback: usize) -> (emulator: Emulator)
        requires
            rows >= 1,
            cols >= 1,
        ensures
            emulator_history(emulator) == seq![
                TerminalEvent::Opened { rows, cols, scrollback: scrollback as nat },
            ],
            emulator_offset(emulator) == 0,
            whole(emulator_history(emulator)),
    {
        Emulator { parser: vt100::Parser::new(rows, cols, scrollback) }
    }

    /// `vt100::Parser::process`: gives the emulator output. One that is not scrolled back stays
    /// so. Drawing keeps the halves of wide characters together, and erases both where one is drawn
    /// over.
    #[verifier::external_body]
    pub(crate) fn process(&mut self, bytes: &[u8])
        requires
            calm(emulator_history(*old(self)), bytes@) || (bytes@.len() == 1 && takes_byte(
                emulator_history(*old(self)),
                bytes@[0],
            )),
            emulator_offset(*old(self)) == 0,
        ensures
            emulator_history(*final(self)) == emulator_history(*old(self)).push(
                TerminalEvent::Output(bytes@),
            ),
            emulator_offset(*final(self)) == 0,
            whole(emulator_history(*old(self))) ==> whole(emulator_history(*final(self))),
    {
        self.parser.process(bytes);
    }

    /// `vt100::Screen::set_size`: gives the emulator a new size. It does not scroll.
    #[verifier::external_body]
    pub(crate) fn set_size(&mut self, rows: u16, cols: u16)
        requires
            rows >= 1,
            cols >= 1,
        ensures
            emulator_history(*final(self)) == emulator_history(*old(self)).push(
                TerminalEvent::Resized { rows, cols },
            ),
            emulator_offset(*final(self)) == emulator_offset(*old(self)),
    {
        self.parser.screen_mut().set_size(rows, cols);
    }

    /// `vt100::Screen::set_scrollback`: scrolls back by so many rows, or by as many as have
    /// scrolled out where there are fewer. A screen always has all its rows, and no more rows are
    /// retained above it than it was opened with room for.
    #[verifier::external_body]
    pub(crate) fn set_scrollback(&mut self, rows: usize)
        ensures
            emulator_history(*final(self)) == emulator_history(*old(self)),
            0 <= scrolled_out(emulator_history(*final(self))) <= scrollback_room(
                emulator_history(*final(self)),
            ),
            emulator_offset(*final(self)) == if rows <= scrolled_out(
                emulator_history(*old(self)),
            ) {
                rows as int
            } else {
                scrolled_out(emulator_history(*old(self)))
            },
    {
        self.parser.screen_mut().set_scrollback(rows);
    }

    /// `vt100::Screen::scrollback`: by how many rows the emulator is scrolled back.
    #[verifier::external_body]
    pub(crate) fn scrollback(&self) -> (rows: usize)
        ensures
            rows == emulator_offset(*self),
    {
        self.parser.screen().scrollback()
    }

    /// `vt100::Screen::rows` over all columns: the text of as many retained rows as the screen
    /// has, the first of them as far above the screen as the emulator is scrolled back.
    #[verifier::external_body]
    pub(crate) fn rows(&self) -> (rows: Vec<String>)
        ensures
            rows@.len() == size_after(emulator_history(*self)).0,
            forall|i: int|
                0 <= i < rows@.len() ==> (#[trigger] rows@[i])@ == emulated_rows(
                    emulator_history(*self),
                )[scrolled_out(emulator_history(*self)) - emulator_offset(*self) + i].0,
    {
        let screen = self.parser.screen();
        screen.rows(0, screen.size().1).collect()
    }

    /// `vt100::Screen::row_wrapped`: whether the given row, of those that `rows` gives the text
    /// of, continues on the next.
    #[verifier::external_body]
    pub(crate) fn row_wrapped(&self, row: u16) -> (wrapped: bool)
        requires
            row < size_after(emulator_history(*self)).0,
        ensures
            wrapped == emulated_rows(emulator_history(*self))[scrolled_out(emulator_history(*self))
                - emulator_offset(*self) + row].1,
    {
        self.parser.screen().row_wrapped(row)
    }

    /// `vt100::Screen::size`: the rows and columns of the screen.
    #[verifier::external_body]
    pub(crate) fn size(&self) -> (size: (u16, u16))
        ensures
            size == size_after(emulator_history(*self)),
    {
        self.parser.screen().size()
    }

    /// `vt100::Screen::cursor_position`: the row and column of the cursor. The row is one of the
    /// screen; the column may be the one just behind the last.
    #[verifier::external_body]
    pub(crate) fn cursor_position(&self) -> (position: (u16, u16))
        ensures
            position == emulated_cursor(emulator_history(*self)),
            position.0 < size_after(emulator_history(*self)).0,
            position.1 <= size_after(emulator_history(*self)).1,
    {
        self.parser.screen().cursor_position()
    }

    /// `vt100::Screen::cell` and `vt100::Cell::inverse`: whether a cell of the screen is in
    /// reverse video.
    #[verifier::external_body]
    pub(crate) fn inverse(&self, row: u16, col: u16) -> (inverse: bool)
        requires
            emulator_offset(*self) == 0,
            row < size_after(emulator_history(*self)).0,
            col < size_after(emulator_history(*self)).1,
        ensures
            inverse == emulated_inverse(emulator_history(*self), row, col),
    {
        self.parser.screen().cell(row, col).is_some_and(vt100::Cell::inverse)
    }

    /// `vt100::Screen::cell` and `vt100::Cell::is_wide`: whether a character more than one column
    /// wide begins in a cell of the screen.
    #[verifier::external_body]
    pub(crate) fn is_wide(&self, row: u16, col: u16) -> (wide: bool)
        requires
            emulator_offset(*self) == 0,
            row < size_after(emulator_history(*self)).0,
            col < size_after(emulator_history(*self)).1,
        ensures
            wide == emulated_wide(emulator_history(*self), row, col),
    {
        self.parser.screen().cell(row, col).is_some_and(vt100::Cell::is_wide)
    }

    /// `vt100::Screen::cell` and `vt100::Cell::is_wide_continuation`: whether a cell of the screen
    /// holds the second half of a wide character.
    #[verifier::external_body]
    pub(crate) fn is_continued(&self, row: u16, col: u16) -> (continued: bool)
        requires
            emulator_offset(*self) == 0,
            row < size_after(emulator_history(*self)).0,
            col < size_after(emulator_history(*self)).1,
        ensures
            continued == emulated_continued(emulator_history(*self), row, col),
    {
        self.parser.screen().cell(row, col).is_some_and(vt100::Cell::is_wide_continuation)
    }

    /// `vt100::Screen::clone`: a copy that looks the same, with a parser that has been given
    /// nothing.
    #[verifier::external_body]
    pub(crate) fn copy(&self) -> (copy: Emulator)
        ensures
            emulator_history(copy) == emulator_history(*self).push(TerminalEvent::Copied),
            emulator_offset(copy) == emulator_offset(*self),
    {
        let mut parser = vt100::Parser::default();
        *parser.screen_mut() = self.parser.screen().clone();
        Emulator { parser }
    }

    /// `vt100::Screen::hide_cursor`: whether the cursor is hidden.
    #[verifier::external_body]
    pub(crate) fn hide_cursor(&self) -> (hidden: bool)
        ensures
            hidden == emulated_hidden_cursor(emulator_history(*self)),
    {
        self.parser.screen().hide_cursor()
    }

    /// `vt100::Screen::alternate_screen`: whether the alternate screen is in use.
    #[verifier::external_body]
    pub(crate) fn alternate_screen(&self) -> (alternate: bool)
        ensures
            alternate == emulated_alternate_screen(emulator_history(*self)),
    {
        self.parser.screen().alternate_screen()
    }

    /// `vt100::Screen::application_cursor`: whether cursor-key mode is on.
    #[verifier::external_body]
    pub(crate) fn application_cursor(&self) -> (application: bool)
        ensures
            application == emulated_application_cursor(emulator_history(*self)),
    {
        self.parser.screen().application_cursor()
    }
}

/// A terminal with two rows and three columns, nothing on which is cut in half, takes whatever output
/// it is given, unless it is so wide that a tab could leave its range.
pub proof fn law_roomy_terminals_take_all_output(history: Seq<TerminalEvent>, bytes: Seq<u8>)
    requires
        whole(history),
        size_after(history).0 >= 2,
        size_after(history).1 >= 3,
        size_after(history).1 <= 65527 || !bytes.contains(0x09),
    ensures
        drawable(history, bytes),
        after_output(history, bytes) == history.push(TerminalEvent::Output(bytes)),
{
}

/// An escape character begins a control sequence whatever came before, and cancel and substitute end
/// one. Where there is none, no other byte begins one.
pub proof fn law_where_control_sequences_begin(output: Seq<u8>, byte: u8)
    ensures
        last_sequence(output.push(0x1b)) == seq![0x1bu8],
        last_sequence(output.push(0x18)) == Seq::<u8>::empty(),
        last_sequence(output.push(0x1a)) == Seq::<u8>::empty(),
        byte != 0x1b && last_sequence(output).len() == 0 ==> last_sequence(output.push(byte)).len()
            == 0,
{
    assert(output.push(0x1b).drop_last() =~= output);
    assert(output.push(0x18).drop_last() =~= output);
    assert(output.push(0x1a).drop_last() =~= output);
    assert(output.push(byte).drop_last() =~= output);
}

/// A control sequence with parameters goes on while its bytes are parameters or intermediate bytes,
/// and ends with the first letter or other sign from `@` to `~`.
pub proof fn law_where_control_sequences_end(output: Seq<u8>, parameters: Seq<u8>, last: u8)
    requires
        forall|i: int| 0 <= i < parameters.len() ==> 0x20 <= #[trigger] parameters[i] < 0x40,
        0x40 <= last < 0x7f,
    ensures
        ({
            let begun = output + seq![0x1bu8, 0x5b] + parameters;
            &&& last_sequence(begun) == seq![0x1bu8, 0x5b] + parameters
            &&& last_sequence(begun.push(last)) == Seq::<u8>::empty()
        }),
{
    let begun = output + seq![0x1bu8, 0x5b] + parameters;
    lemma_parameters(output, parameters);
    let sequence = seq![0x1bu8, 0x5b] + parameters;
    assert(sequence[1] == 0x5b && sequence.len() >= 2);
    assert(closes(sequence, last));
    assert(sequence_on(sequence, last) == Seq::<u8>::empty());
    assert(begun.push(last).drop_last() =~= begun);
    assert(begun.push(last).last() == last);
}

proof fn lemma_parameters(output: Seq<u8>, parameters: Seq<u8>)
    requires
        forall|i: int| 0 <= i < parameters.len() ==> 0x20 <= #[trigger] parameters[i] < 0x40,
    ensures
        last_sequence(output + seq![0x1bu8, 0x5b] + parameters) == seq![0x1bu8, 0x5b] + parameters,
    decreases parameters.len(),
{
    let begun = output + seq![0x1bu8, 0x5b] + parameters;
    if parameters.len() == 0 {
        law_where_control_sequences_begin(output, 0x5b);
        assert(begun.drop_last() =~= output.push(0x1b));
        assert(begun.last() == 0x5b);
        assert(seq![0x1bu8].push(0x5b) =~= seq![0x1bu8, 0x5b] + parameters);
    } else {
        let fewer = parameters.drop_last();
        let byte = parameters[parameters.len() - 1];
        assert forall|i: int| 0 <= i < fewer.len() implies 0x20 <= #[trigger] fewer[i] < 0x40 by {
            assert(fewer[i] == parameters[i]);
        }
        lemma_parameters(output, fewer);
        assert(begun.drop_last() =~= output + seq![0x1bu8, 0x5b] + fewer);
        assert(begun.last() == byte);
        let earlier = seq![0x1bu8, 0x5b] + fewer;
        assert(earlier[1] == 0x5b && earlier.len() >= 2);
        assert(!closes(earlier, byte) && matters(earlier, byte));
        assert(sequence_on(earlier, byte) == earlier.push(byte));
        assert(earlier.push(byte) =~= seq![0x1bu8, 0x5b] + parameters);
    }
}

/// A title, or any other operating system command, goes on until a bell.
pub proof fn law_where_commands_end(output: Seq<u8>, text: Seq<u8>)
    requires
        forall|i: int|
            0 <= i < text.len() ==> #[trigger] text[i] != 0x07 && text[i] != 0x18 && text[i] != 0x1a
                && text[i] != 0x1b,
    ensures
        ({
            let begun = output + seq![0x1bu8, 0x5d] + text;
            &&& last_sequence(begun).len() > 0
            &&& last_sequence(begun.push(0x07)) == Seq::<u8>::empty()
        }),
{
    lemma_command(output, text);
    let begun = output + seq![0x1bu8, 0x5d] + text;
    assert(begun.push(0x07).drop_last() =~= begun);
}

proof fn lemma_command(output: Seq<u8>, text: Seq<u8>)
    requires
        forall|i: int|
            0 <= i < text.len() ==> #[trigger] text[i] != 0x07 && text[i] != 0x18 && text[i] != 0x1a
                && text[i] != 0x1b,
    ensures
        last_sequence(output + seq![0x1bu8, 0x5d] + text) == seq![0x1bu8, 0x5d],
    decreases text.len(),
{
    let begun = output + seq![0x1bu8, 0x5d] + text;
    if text.len() == 0 {
        law_where_control_sequences_begin(output, 0x5d);
        assert(begun.drop_last() =~= output.push(0x1b));
        assert(seq![0x1bu8].push(0x5d) =~= seq![0x1bu8, 0x5d]);
    } else {
        let fewer = text.drop_last();
        assert forall|i: int| 0 <= i < fewer.len() implies #[trigger] fewer[i] != 0x07 && fewer[i]
            != 0x18 && fewer[i] != 0x1a && fewer[i] != 0x1b by {
            assert(fewer[i] == text[i]);
        }
        lemma_command(output, fewer);
        assert(begun.drop_last() =~= output + seq![0x1bu8, 0x5d] + fewer);
        assert(begun.last() == text[text.len() - 1]);
        assert(seq![0x1bu8, 0x5d][1] == 0x5d);
    }
}

/// Outside of control sequences, a byte from `0xc0` on begins a character, and one from `0x80` on
/// continues one that is not complete: two, three or four bytes long by its first. Any other byte ends
/// it.
pub proof fn law_how_characters_go_on(output: Seq<u8>, byte: u8)
    requires
        last_sequence(output).len() == 0,
    ensures
        ({
            let begun = last_character(output);
            let after = last_character(output.push(byte));
            &&& byte < 0x80 ==> after.len() == 0
            &&& byte >= 0xc0 ==> after == seq![byte]
            &&& 0x80 <= byte < 0xc0 && begun.len() == 0 ==> after.len() == 0
            &&& 0x80 <= byte < 0xc0 && begun.len() == 1 ==> after == seq![begun[0], byte]
            &&& 0x80 <= byte < 0xc0 && begun.len() == 2 ==> after.len() == (if begun[0] >= 0xe0 {
                3nat
            } else {
                0
            })
            &&& 0x80 <= byte < 0xc0 && begun.len() == 3 ==> after.len() == (if begun[0] >= 0xf0 {
                4nat
            } else {
                0
            })
            &&& begun.len() > 3 && byte < 0xc0 ==> after.len() == 0
        }),
{
    assert(output.push(byte).drop_last() =~= output);
    let begun = last_character(output);
    if begun.len() == 1 {
        assert(begun.push(byte) =~= seq![begun[0], byte]);
    }
}

/// Nothing is drawn by control characters, nor within control sequences; a printable ASCII character
/// outside of them takes one column.
pub proof fn law_what_draws(history: Seq<TerminalEvent>, byte: u8)
    ensures
        byte < 0x20 || byte == 0x7f ==> columns_drawn(history, byte) == 0,
        last_sequence(output_of(history)).len() > 0 ==> columns_drawn(history, byte) == 0,
        0x20 <= byte < 0x7f && last_sequence(output_of(history)).len() == 0 ==> columns_drawn(
            history,
            byte,
        ) == 1,
{
}

proof fn lemma_sound_rows_are_spared(history: Seq<TerminalEvent>, row: u16, from: int, to: int)
    requires
        sound_row(history, row),
        size_after(history).1 >= 1,
        0 <= from,
    ensures
        spares(history, row, Reach { from, to, moves: false }),
{
    let cols = size_after(history).1;
    if still_wide(history, row, from, cols - 1) {
        assert(emulated_wide(history, row, (cols - 1) as u16));
    }
    if emulated_continued(history, row, 0) {
        assert(false);
    }
}

/// Where no wide character of a row is cut in half, any of its cells can be drawn over or erased.
pub proof fn law_sound_rows_can_be_drawn_on(history: Seq<TerminalEvent>, row: u16, from: int, to: int)
    requires
        sound_row(history, row),
        size_after(history).1 >= 1,
        0 <= from,
    ensures
        spares(history, row, Reach { from, to, moves: false }),
{
    lemma_sound_rows_are_spared(history, row, from, to);
}

/// A printable ASCII character that fits in a sound row is taken, and so is one that goes on in the
/// next row where that is sound too. On a single row one that does not fit is not.
pub proof fn law_which_characters_are_taken(history: Seq<TerminalEvent>, byte: u8)
    requires
        0x20 <= byte < 0x7f,
        last_sequence(output_of(history)).len() == 0,
        size_after(history).0 >= 1,
        size_after(history).1 >= 1,
        emulated_cursor(history).0 < size_after(history).0,
    ensures
        ({
            let (rows, cols) = size_after(history);
            let (row, column) = emulated_cursor(history);
            &&& column < cols && sound_row(history, row) ==> takes_byte(history, byte)
            &&& column >= cols && rows == 1 ==> !takes_byte(history, byte)
            &&& column >= cols && row + 1 < rows && sound_row(history, row) && sound_row(
                history,
                (row + 1) as u16,
            ) ==> takes_byte(history, byte)
        }),
{
    let (rows, cols) = size_after(history);
    let (row, column) = emulated_cursor(history);
    assert(columns_drawn(history, byte) == 1);
    if sound_row(history, row) {
        lemma_sound_rows_are_spared(history, row, column as int, column + 1);
        lemma_sound_rows_are_spared(history, row, 0, 1);
        if row + 1 < rows && sound_row(history, (row + 1) as u16) {
            lemma_sound_rows_are_spared(history, (row + 1) as u16, 0, 1);
        }
    }
}

/// Erasing to the end of a row or of the screen touches the cells from the cursor on, erasing to its
/// beginning those up to and with the cursor; erasing or deleting characters touches as many as are
/// given, one where none are, and not beyond the row. Nothing else touches a cell of the row.
pub proof fn law_what_is_erased(sequence: Seq<u8>, byte: u8, column: int, cols: int)
    requires
        sequence.len() >= 2,
        sequence[1] == 0x5b,
        0 <= column <= cols,
    ensures
        ({
            let touched = reach(sequence, byte, column, cols);
            let number = first_number(sequence);
            let known = form(sequence) != Form::Foreign;
            &&& known && (byte == 0x4a || byte == 0x4b) && number == 0 ==> touched.from == column
                && touched.to == cols && !touched.moves
            &&& known && (byte == 0x4a || byte == 0x4b) && number == 1 ==> touched.from == 0 && (
            touched.to == column + 1 || touched.to == cols) && touched.to <= cols && touched.to
                >= column && !touched.moves
            &&& (byte == 0x4a || byte == 0x4b) && number > 1 ==> touched.from >= touched.to
            &&& form(sequence) == Form::Plain && (byte == 0x50 || byte == 0x58) ==> {
                &&& touched.from == column
                &&& touched.to <= cols
                &&& number > 0 && column + number <= cols ==> touched.to - touched.from == number
                &&& number == 0 && column < cols ==> touched.to - touched.from == 1
                &&& number > 0 && column + number > cols ==> touched.to == cols
                &&& touched.moves <==> byte == 0x50
            }
            &&& form(sequence) != Form::Plain && (byte == 0x50 || byte == 0x58) ==> touched.from
                >= touched.to
            &&& byte != 0x4a && byte != 0x4b && byte != 0x50 && byte != 0x58 ==> touched.from
                >= touched.to
            &&& !known ==> touched.from >= touched.to
        }),
{
}

/// A terminal has the size that it was given last, whatever output it was given since.
pub proof fn law_terminals_have_the_size_given_last(
    history: Seq<TerminalEvent>,
    rows: u16,
    cols: u16,
    scrollback: nat,
    bytes: Seq<u8>,
)
    ensures
        size_after(history.push(TerminalEvent::Resized { rows, cols })) == (rows, cols),
        size_after(history.push(TerminalEvent::Opened { rows, cols, scrollback })) == (rows, cols),
        size_after(history.push(TerminalEvent::Output(bytes))) == size_after(history),
        size_after(history.push(TerminalEvent::Copied)) == size_after(history),
{
    assert(history.push(TerminalEvent::Output(bytes)).drop_last() =~= history);
    assert(history.push(TerminalEvent::Copied).drop_last() =~= history);
}

proof fn lemma_number_so_far(sequence: Seq<u8>, start: int, i: int)
    requires
        0 <= start <= i <= sequence.len(),
        forall|k: int| start <= k < i ==> 0x30 <= #[trigger] sequence[k] < 0x3a,
    ensures
        value_of(sequence.subrange(start, i)) >= 0,
        number_from(sequence, start, 0) == number_from(
            sequence,
            i,
            if value_of(sequence.subrange(start, i)) > 65535 {
                65535
            } else {
                value_of(sequence.subrange(start, i))
            },
        ),
    decreases i - start,
{
    if i == start {
        assert(sequence.subrange(start, i) =~= Seq::<u8>::empty());
    } else {
        lemma_number_so_far(sequence, start, i - 1);
        let part = sequence.subrange(start, i);
        assert(part.drop_last() =~= sequence.subrange(start, i - 1));
        assert(part.last() == sequence[i - 1]);
    }
}

/// The first number of a control sequence is the one that its first digits stand for, also behind a
/// question mark, and at most the largest of 16 bits. It is zero where there are no digits.
pub proof fn law_numbers_of_control_sequences(private: bool, ascii: Seq<u8>, tail: Seq<u8>)
    requires
        forall|i: int| 0 <= i < ascii.len() ==> 0x30 <= #[trigger] ascii[i] <= 0x39,
        tail.len() > 0 ==> !(0x30 <= tail[0] <= 0x39),
        !private && ascii.len() == 0 && tail.len() > 0 ==> tail[0] != 0x3f,
    ensures
        ({
            let head = if private {
                seq![0x1bu8, 0x5b, 0x3f]
            } else {
                seq![0x1bu8, 0x5b]
            };
            let number = value_of(ascii);
            first_number(head + ascii + tail) == (if number > 65535 {
                65535
            } else {
                number
            })
        }),
{
    let head = if private {
        seq![0x1bu8, 0x5b, 0x3f]
    } else {
        seq![0x1bu8, 0x5b]
    };
    let sequence = head + ascii + tail;
    let start = head.len() as int;
    let end = start + ascii.len();
    assert forall|k: int| start <= k < end implies 0x30 <= #[trigger] sequence[k] < 0x3a by {
        assert(sequence[k] == ascii[k - start]);
    }
    assert(sequence.subrange(start, end) =~= ascii);
    lemma_number_so_far(sequence, start, end);
    if tail.len() > 0 {
        assert(sequence[end] == tail[0]);
    }
    if private {
        assert(sequence[2] == 0x3f);
    } else if sequence.len() > 2 {
        assert(sequence[2] != 0x3f);
    }
}

/// A control sequence of numbers and separators alone is plain, one that begins with a question mark
/// is private, and one with an intermediate byte but no question mark is not understood.
pub proof fn law_forms_of_control_sequences(numbers: Seq<u8>, mark: u8)
    requires
        forall|i: int| 0 <= i < numbers.len() ==> 0x30 <= #[trigger] numbers[i] < 0x3c,
        0x20 <= mark < 0x30,
    ensures
        form(seq![0x1bu8, 0x5b] + numbers) == Form::Plain,
        form(seq![0x1bu8, 0x5b, 0x3f] + numbers) == Form::Private,
        form((seq![0x1bu8, 0x5b] + numbers).push(mark)) == Form::Foreign,
        form((seq![0x1bu8, 0x5b, 0x3f] + numbers).push(mark)) == Form::Marked,
        form((seq![0x1bu8, 0x5b] + numbers).push(0x3c)) == Form::Foreign,
        form((seq![0x1bu8, 0x5b, 0x3f] + numbers).push(0x3f)) == Form::Foreign,
    decreases numbers.len(),
{
    let plain = seq![0x1bu8, 0x5b] + numbers;
    let private = seq![0x1bu8, 0x5b, 0x3f] + numbers;
    assert(plain.push(mark).drop_last() =~= plain);
    assert(plain.push(0x3c).drop_last() =~= plain);
    assert(private.push(mark).drop_last() =~= private);
    assert(private.push(0x3f).drop_last() =~= private);
    if numbers.len() == 0 {
        assert(private.drop_last() =~= seq![0x1bu8, 0x5b]);
        assert(private.last() == 0x3f);
        assert(form(seq![0x1bu8, 0x5b]) == Form::Plain);
    } else {
        let fewer = numbers.drop_last();
        assert forall|i: int| 0 <= i < fewer.len() implies 0x30 <= #[trigger] fewer[i] < 0x3c by {
            assert(fewer[i] == numbers[i]);
        }
        law_forms_of_control_sequences(fewer, mark);
        assert(plain.drop_last() =~= seq![0x1bu8, 0x5b] + fewer);
        assert(private.drop_last() =~= seq![0x1bu8, 0x5b, 0x3f] + fewer);
        assert(plain.last() == numbers[numbers.len() - 1]);
        assert(private.last() == numbers[numbers.len() - 1]);
    }
}

/// Output is seen as it is, but for one byte: of output that completes a character of two bytes and
/// goes on with one ASCII character and another that is not, the ASCII character is overlooked.
pub proof fn law_what_is_overlooked(output: Seq<u8>, bytes: Seq<u8>)
    ensures
        bytes.len() < 3 || last_character(output).len() != 1 ==> seen(output, bytes) == bytes,
        bytes.len() >= 3 && (bytes[0] < 0x80 || bytes[0] >= 0xc0 || bytes[1] >= 0x80 || bytes[2]
            < 0x80) ==> seen(output, bytes) == bytes,
        bytes.len() >= 3 && last_character(output).len() == 1 && 0xc2 <= last_character(output)[0]
            < 0xe0 && 0x80 <= bytes[0] < 0xc0 && bytes[1] < 0x80 && bytes[2] >= 0x80 ==> seen(
            output,
            bytes,
        ) == seq![bytes[0]] + bytes.skip(2),
{
    if bytes.len() >= 3 {
        assert(bytes.remove(1) =~= seq![bytes[0]] + bytes.skip(2));
    }
}

/// A row is sound exactly where every wide character in it is followed by its second half within the
/// row, and every second half stands behind its first.
pub proof fn law_which_rows_are_sound(history: Seq<TerminalEvent>, row: u16, col: u16)
    requires
        sound_row(history, row),
        col < size_after(history).1,
    ensures
        emulated_wide(history, row, col) ==> col + 1 < size_after(history).1 && emulated_continued(
            history,
            row,
            (col + 1) as u16,
        ),
        emulated_continued(history, row, col) ==> col > 0 && emulated_wide(
            history,
            row,
            (col - 1) as u16,
        ),
        !emulated_continued(history, row, 0),
        !emulated_wide(history, row, (size_after(history).1 - 1) as u16),
{
    if emulated_continued(history, row, 0) {
        assert(false);
    }
    if emulated_wide(history, row, (size_after(history).1 - 1) as u16) {
        assert(false);
    }
}

/// A row in whose first column half a character stands cannot be drawn on there, nor can one be
/// erased up to its end from whose last column the second half is cut off.
pub proof fn law_cut_characters_are_not_touched(
    history: Seq<TerminalEvent>,
    row: u16,
    to: int,
    moves: bool,
)
    requires
        size_after(history).1 >= 1,
    ensures
        emulated_continued(history, row, 0) && to > 0 ==> !spares(
            history,
            row,
            Reach { from: 0, to, moves },
        ),
        emulated_wide(history, row, (size_after(history).1 - 1) as u16) ==> !spares(
            history,
            row,
            Reach { from: size_after(history).1 - 1, to: size_after(history).1 as int, moves },
        ),
        to <= 0 ==> spares(history, row, Reach { from: 0, to, moves }),
{
    let last = size_after(history).1 - 1;
    reveal_with_fuel(still_wide, 2);
    assert(!still_wide(history, row, last, last - 1));
}

/// Behind an escape character, an intermediate byte or one of `P X [ ] ^ _` goes on with the control
/// sequence, any other printable byte ends it, and control characters are passed over.
pub proof fn law_what_goes_on_behind_an_escape(output: Seq<u8>, byte: u8)
    requires
        byte != 0x18,
        byte != 0x1a,
        byte != 0x1b,
    ensures
        ({
            let after = last_sequence(output + seq![0x1bu8, byte]);
            let goes_on = byte == 0x50 || byte == 0x58 || byte == 0x5b || byte == 0x5d || byte == 0x5e
                || byte == 0x5f || (0x20 <= byte && byte <= 0x2f);
            &&& goes_on ==> after == seq![0x1bu8, byte]
            &&& !goes_on && 0x20 <= byte && byte <= 0x7e ==> after.len() == 0
            &&& byte < 0x20 || byte > 0x7e ==> after == seq![0x1bu8]
        }),
{
    law_where_control_sequences_begin(output, 0x1b);
    let whole = output + seq![0x1bu8, byte];
    assert(whole.drop_last() =~= output.push(0x1b));
    assert(whole.last() == byte);
    assert(seq![0x1bu8].push(byte) =~= seq![0x1bu8, byte]);
}

/// A device control string comes to its data with its first byte from `@` to `~`, and ends there with
/// its terminator alone. One whose parameters make no sense is passed over, and nothing but a break
/// ends it.
pub proof fn law_how_device_control_strings_go_on(begun: Seq<u8>, byte: u8)
    requires
        begun.len() > 2,
        begun[0] == 0x1b,
        begun[1] == 0x50,
        byte != 0x18,
        byte != 0x1a,
        byte != 0x1b,
    ensures
        begun.last() >= 0x40 && byte == 0x9c ==> sequence_on(begun, byte).len() == 0,
        begun.last() >= 0x40 && byte != 0x9c ==> sequence_on(begun, byte) == begun,
        begun.len() > 3 && 0x3c <= begun.last() < 0x40 ==> sequence_on(begun, byte) == begun,
        begun.len() > 3 && 0x30 <= begun.last() < 0x40 && begun[begun.len() - 2] < 0x30
            ==> sequence_on(begun, byte) == begun,
        begun.len() == 3 && begun.last() < 0x40 && 0x20 <= byte < 0x7f ==> sequence_on(begun, byte)
            == begun.push(byte),
        begun.len() > 3 && begun.last() < 0x3c && begun[begun.len() - 2] >= 0x30 && 0x20 <= byte
            < 0x7f ==> sequence_on(begun, byte) == begun.push(byte),
        begun.last() < 0x40 && (byte < 0x20 || byte >= 0x7f) ==> sequence_on(begun, byte) == begun,
{
}

/// The main screen is turned to by `ESC [ ? 4 7 l`, the alternate one by `ESC [ ? 4 7 h`; a character
/// is tried out on a terminal of two rows by four columns, behind two spaces.
pub proof fn law_how_screens_are_turned_and_characters_tried(character: Seq<u8>)
    ensures
        turning(true) == seq![0x1bu8, 0x5b, 0x3f, 0x34, 0x37, 0x68],
        turning(false) == seq![0x1bu8, 0x5b, 0x3f, 0x34, 0x37, 0x6c],
        trial(character).len() == 2,
        trial(character)[0] == (TerminalEvent::Opened { rows: 2, cols: 4, scrollback: 0 }),
        trial(character)[1] matches TerminalEvent::Output(bytes) && bytes == seq![0x20u8, 0x20u8]
            + character,
        columns_of(character) == (if emulated_cursor(trial(character)).0 > 0 {
            3
        } else if emulated_cursor(trial(character)).1 > 2 {
            emulated_cursor(trial(character)).1 - 2
        } else {
            0
        }),
{
}

/// Output is given at once or byte by byte, and is the same output; what a copy has been given does
/// not count.
pub proof fn law_output_is_the_same_in_pieces(history: Seq<TerminalEvent>, bytes: Seq<u8>)
    ensures
        output_of(byte_by_byte(history, bytes)) == output_of(history) + bytes,
        output_of(history.push(TerminalEvent::Output(bytes))) == output_of(history) + seen(
            output_of(history),
            bytes,
        ),
        output_of(after_output(history, bytes)) == output_of(history) + seen(
            output_of(history),
            bytes,
        ),
        output_of(history.push(TerminalEvent::Copied)).len() == 0,
        byte_by_byte(history, bytes).len() == history.len() + bytes.len(),
{
    lemma_byte_by_byte(history, bytes);
    lemma_byte_by_byte(history, seen(output_of(history), bytes));
    assert(history.push(TerminalEvent::Output(bytes)).drop_last() =~= history);
}

/// Bytes are taken one by one exactly where each is taken after those before it.
pub proof fn law_bytes_are_taken_one_by_one(history: Seq<TerminalEvent>, bytes: Seq<u8>, byte: u8)
    ensures
        takes_all(history, Seq::empty()),
        takes_all(history, bytes.push(byte)) <==> takes_all(history, bytes) && takes_byte(
            byte_by_byte(history, bytes),
            byte,
        ),
        byte_by_byte(history, Seq::empty()) == history,
        byte_by_byte(history, bytes.push(byte)) == byte_by_byte(history, bytes).push(
            TerminalEvent::Output(seq![byte]),
        ),
{
    assert(bytes.push(byte).drop_last() =~= bytes);
}

/// A control sequence with an intermediate byte and no parameters ends with what it selects. A string
/// that is not understood ends with nothing but a break, and so does a device control string that has
/// not come to its data.
pub proof fn law_how_other_sequences_go_on(begun: Seq<u8>, byte: u8)
    requires
        begun.len() == 2,
        begun[0] == 0x1b,
        0x20 <= byte < 0x7f || byte >= 0x80,
    ensures
        0x20 <= begun[1] < 0x30 && 0x30 <= byte < 0x7f ==> sequence_on(begun, byte).len() == 0,
        0x20 <= begun[1] < 0x30 && byte < 0x30 ==> sequence_on(begun, byte) == begun,
        begun[1] == 0x58 || begun[1] == 0x5e || begun[1] == 0x5f ==> sequence_on(begun, byte)
            == begun,
        begun[1] == 0x30 ==> sequence_on(begun, byte) == begun,
        begun[1] == 0x50 && byte < 0x7f ==> sequence_on(begun, byte) == begun.push(byte),
        begun[1] == 0x50 && byte >= 0x80 ==> sequence_on(begun, byte) == begun,
{
}

/// A character beyond ASCII that takes no column is taken where it leaves no mark, or where there is a
/// whole character before the cursor to mark.
pub proof fn law_which_marks_are_taken(history: Seq<TerminalEvent>, byte: u8)
    requires
        byte >= 0x80,
        last_sequence(output_of(history)).len() == 0,
        columns_drawn(history, byte) == 0,
        size_after(history).0 >= 1,
        size_after(history).1 >= 1,
        emulated_cursor(history).1 <= size_after(history).1,
    ensures
        takes_byte(history, byte) <==> !marks(
            character_on(last_character(output_of(history)), byte),
        ) || marks_sound(history),
{
}

/// There is a whole character before the cursor unless it is half of one that was cut off: in the
/// first column of the cursor's row, or, on a terminal of one column, of the row that continues there.
pub proof fn law_what_can_be_marked(history: Seq<TerminalEvent>)
    ensures
        ({
            let (row, column) = emulated_cursor(history);
            let cols = size_after(history).1;
            &&& column > 1 ==> marks_sound(history)
            &&& column == 1 ==> (marks_sound(history) <==> !emulated_continued(history, row, 0))
            &&& column == 0 && (row == 0 || cols != 1) ==> marks_sound(history)
            &&& column == 0 && row > 0 && cols == 1 ==> (marks_sound(history) <==> !(emulated_rows(
                history,
            )[scrolled_out(history) + row - 1].1 && emulated_continued(
                history,
                (row - 1) as u16,
                0,
            )))
        }),
{
}

} // verus!
