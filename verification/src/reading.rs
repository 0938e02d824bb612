//! What a read returns of the output of a session: text, bytes or the screen.
use crate::buffer::{clamped, smaller};
use crate::emulator::emulated_alternate_screen;
use crate::encoding::{
    base64, encode_base64, is_utf8, law_base64_is_lossless, lossy_text, text_lossy,
};
use crate::mcp::ReadMode;
use crate::reader::{text_bytes, PtyReader};
use crate::render::{pictures, rendered_text, rendering_drops_rows, ScreenSnapshot};
use crate::screen::{drawn_afresh, is_drawn_afresh};
use crate::session::Session;
use vstd::prelude::*;
use vstd::utf8::{decode_utf8, encode_utf8, valid_utf8};

verus! {

/// What a read returns of the output.
#[derive(Debug)]
pub enum ReadBody {
    Screen(ScreenSnapshot),
    /// The bytes as text, whether the text stands for them only in part, and the bytes in base64.
    Raw { text: String, text_lossy: bool, base64: String },
    Text { text: String, rows_dropped: bool },
}

/// The output that a read returns, and the range of it that the read covers.
#[derive(Debug)]
pub struct Extract {
    pub mode: ReadMode,
    /// From where on the output is covered. A screen reflects every byte before its end.
    pub covered_from: u64,
    pub start_cursor: u64,
    pub next_cursor: u64,
    pub dropped_bytes: u64,
    pub body: ReadBody,
}

/// The mode that a read is answered in.
pub open spec fn mode_of(mode: ReadMode, alternate_screen: bool) -> ReadMode {
    if mode != ReadMode::Auto {
        mode
    } else if alternate_screen {
        ReadMode::Screen
    } else {
        ReadMode::Text
    }
}

/// Whether the session's output can be rendered as the mode asks.
pub open spec fn extractable(session: Session, cursor: u64, max: usize, mode: ReadMode) -> bool {
    mode_of(mode, emulated_alternate_screen(session.screen@)) == ReadMode::Text ==> drawn_afresh(
        text_bytes(session.output, cursor, max),
        session.snapshot.rows,
        session.snapshot.cols,
    )
}

/// Whether this is what a read returns.
pub open spec fn extracts(
    session: Session,
    cursor: u64,
    max: usize,
    mode: ReadMode,
    extract: Extract,
) -> bool {
    let output = session.output;
    let first = clamped(cursor as int, output.start() as int, output.end() as int);
    let dropped = if cursor < output.start() {
        output.start() - cursor
    } else {
        0
    };
    &&& extract.mode == mode_of(mode, emulated_alternate_screen(session.screen@))
    &&& match extract.mode {
        ReadMode::Screen => {
            &&& extract.covered_from == 0
            &&& extract.start_cursor == smaller(cursor as int, output.end() as int)
            &&& extract.next_cursor == output.end()
            &&& extract.dropped_bytes == 0
            &&& extract.body is Screen
            &&& pictures(extract.body->Screen_0, session.screen@)
            &&& extract.body->Screen_0.end_cursor == output.end()
        },
        ReadMode::Raw => {
            let last = smaller(first + max, output.end() as int);
            let bytes = output@.subrange(first - output.start(), last - output.start());
            &&& extract.covered_from == first
            &&& extract.start_cursor == first
            &&& extract.next_cursor == last
            &&& extract.dropped_bytes == dropped
            &&& extract.body is Raw
            &&& extract.body->Raw_text@ == lossy_text(bytes)
            &&& valid_utf8(bytes) ==> extract.body->Raw_text@ == decode_utf8(bytes)
            &&& extract.body->text_lossy == !valid_utf8(bytes)
            &&& extract.body->base64@ == base64(bytes)
        },
        _ => {
            let bytes = text_bytes(output, cursor, max);
            let (rows, cols) = (session.snapshot.rows, session.snapshot.cols);
            &&& extract.covered_from == first
            &&& extract.start_cursor == first
            &&& extract.next_cursor == first + bytes.len()
            &&& extract.dropped_bytes == dropped
            &&& extract.body is Text
            &&& extract.body->Text_text@ == rendered_text(bytes, rows, cols)
            &&& extract.body->rows_dropped == rendering_drops_rows(bytes, rows, cols)
        },
    }
}

/// Checks whether the session's output can be rendered as the mode asks.
pub fn is_extractable(session: &Session, cursor: u64, max: usize, mode: ReadMode) -> (r: bool)
    requires
        session.wf(),
    ensures
        r == extractable(*session, cursor, max, mode),
{
    if mode == ReadMode::Raw || mode.shows_screen(session.screen.alternate_screen()) {
        return true;
    }
    let range = PtyReader { session }.text_range(cursor, max);
    is_drawn_afresh(range.bytes.as_slice(), session.snapshot.rows, session.snapshot.cols)
}

/// Reads the output of a session as the mode asks.
pub fn extract(session: &Session, cursor: u64, max: usize, mode: ReadMode) -> (extract: Extract)
    requires
        session.wf(),
        extractable(*session, cursor, max, mode),
    ensures
        extracts(*session, cursor, max, mode, extract),
{
    let reader = PtyReader { session };
    if mode.shows_screen(session.screen.alternate_screen()) {
        let screen = reader.screen();
        let end = screen.end_cursor;
        return Extract {
            mode: ReadMode::Screen,
            covered_from: 0,
            start_cursor: if cursor < end {
                cursor
            } else {
                end
            },
            next_cursor: end,
            dropped_bytes: 0,
            body: ReadBody::Screen(screen),
        };
    }
    if mode == ReadMode::Raw {
        let data = reader.read(cursor, max);
        let text = text_lossy(data.bytes.as_slice());
        let lossless = is_utf8(data.bytes.as_slice());
        let encoded = encode_base64(data.bytes.as_slice());
        return Extract {
            mode: ReadMode::Raw,
            covered_from: data.start_cursor,
            start_cursor: data.start_cursor,
            next_cursor: data.next_cursor,
            dropped_bytes: data.dropped_bytes,
            body: ReadBody::Raw { text, text_lossy: !lossless, base64: encoded },
        };
    }
    let data = reader.read_text(cursor, max);
    Extract {
        mode: ReadMode::Text,
        covered_from: data.start_cursor,
        start_cursor: data.start_cursor,
        next_cursor: data.next_cursor,
        dropped_bytes: data.dropped_bytes,
        body: ReadBody::Text { text: data.text, rows_dropped: data.rows_dropped },
    }
}

/// A raw read loses nothing: bytes that give the same base64 are the bytes it covers, and where its
/// text is not lossy it stands for exactly these too.
pub proof fn law_raw_reads_lose_nothing(
    session: Session,
    cursor: u64,
    max: usize,
    extract: Extract,
    bytes: Seq<u8>,
)
    requires
        session.wf(),
        extracts(session, cursor, max, ReadMode::Raw, extract),
    ensures
        ({
            let covered = session.output@.subrange(
                extract.start_cursor - session.output.start(),
                extract.next_cursor - session.output.start(),
            );
            &&& extract.body->base64@ == base64(bytes) <==> bytes == covered
            &&& !extract.body->text_lossy ==> encode_utf8(extract.body->Raw_text@) == covered
        }),
{
    broadcast use vstd::utf8::decode_utf8_encode_utf8;

    let covered = session.output@.subrange(
        extract.start_cursor - session.output.start(),
        extract.next_cursor - session.output.start(),
    );
    if extract.body->base64@ == base64(bytes) {
        law_base64_is_lossless(bytes, covered);
    }
}

/// A read that asks for the screen, for text or for bytes is answered with them. One that leaves the
/// choice is answered with the screen exactly while the alternate screen is in use, with text
/// otherwise.
pub proof fn law_reads_are_answered_in_the_mode_asked_for(
    session: Session,
    cursor: u64,
    max: usize,
    mode: ReadMode,
    extract: Extract,
)
    requires
        session.wf(),
        extracts(session, cursor, max, mode, extract),
    ensures
        mode is Screen ==> extract.body is Screen && extract.mode is Screen,
        mode is Text ==> extract.body is Text && extract.mode is Text,
        mode is Raw ==> extract.body is Raw && extract.mode is Raw,
        mode is Auto && emulated_alternate_screen(session.screen@) ==> extract.body is Screen
            && extract.mode is Screen,
        mode is Auto && !emulated_alternate_screen(session.screen@) ==> extract.body is Text
            && extract.mode is Text,
{
}

/// Whether a read is answered with the screen, as whoever waits for it takes it, is whether it is.
pub proof fn law_the_screen_is_shown_where_it_is_read(
    session: Session,
    cursor: u64,
    max: usize,
    mode: ReadMode,
    extract: Extract,
)
    requires
        session.wf(),
        extracts(session, cursor, max, mode, extract),
    ensures
        extract.body is Screen <==> mode.spec_shows_screen(
            emulated_alternate_screen(session.screen@),
        ),
{
}

/// A read of the screen is up to date: it covers all output there was, skips none, and goes on at the
/// end of the output. A read of text or bytes begins where it was asked to, or at the oldest byte
/// that is left, says how many bytes are gone, and goes on behind what it covers; a raw one covers as
/// many bytes as it may.
pub proof fn law_reads_go_on_behind_what_they_cover(
    session: Session,
    cursor: u64,
    max: usize,
    mode: ReadMode,
    extract: Extract,
)
    requires
        session.wf(),
        extracts(session, cursor, max, mode, extract),
        cursor <= session.output.end(),
    ensures
        extract.body is Screen ==> {
            &&& extract.covered_from == 0
            &&& extract.start_cursor == cursor
            &&& extract.next_cursor == session.output.end()
            &&& extract.dropped_bytes == 0
            &&& extract.body->Screen_0.end_cursor == extract.next_cursor
        },
        extract.body !is Screen ==> {
            &&& extract.covered_from == extract.start_cursor
            &&& extract.start_cursor == cursor + extract.dropped_bytes
            &&& extract.start_cursor >= session.output.start()
            &&& extract.dropped_bytes > 0 ==> extract.start_cursor == session.output.start()
            &&& extract.start_cursor <= extract.next_cursor <= session.output.end()
            &&& extract.next_cursor - extract.start_cursor <= max
        },
        extract.body is Raw ==> extract.next_cursor == session.output.end() || extract.next_cursor
            - extract.start_cursor == max,
        extract.body is Text && max > 0 && extract.start_cursor < session.output.end()
            ==> extract.next_cursor > extract.start_cursor,
{
    crate::reader::lemma_text_bytes(session.output, cursor, max);
}

/// A read returns what it covers: a raw one the bytes, and whether their text stands for them only in
/// part; one of text what its bytes show at the size of the session, and whether rows of it are
/// missing; one of the screen the screen of the session.
pub proof fn law_reads_return_what_they_cover(
    session: Session,
    cursor: u64,
    max: usize,
    mode: ReadMode,
    extract: Extract,
)
    requires
        session.wf(),
        extracts(session, cursor, max, mode, extract),
    ensures
        extract.body !is Screen ==> {
            let covered = session.output@.subrange(
                extract.start_cursor - session.output.start(),
                extract.next_cursor - session.output.start(),
            );
            &&& extract.body matches ReadBody::Raw { text, text_lossy, base64: encoded } ==> {
                &&& text_lossy <==> !valid_utf8(covered)
                &&& text@ == lossy_text(covered)
                &&& encoded@ == base64(covered)
            }
            &&& extract.body matches ReadBody::Text { text, rows_dropped } ==> {
                let (rows, cols) = (session.snapshot.rows, session.snapshot.cols);
                &&& text@ == rendered_text(covered, rows, cols)
                &&& rows_dropped <==> crate::emulator::scrolled_out(
                    crate::render::fresh_history(covered, rows, cols),
                ) > 4000
            }
        },
        extract.body matches ReadBody::Screen(screen) ==> pictures(screen, session.screen@)
            && screen.end_cursor == session.output.end(),
{
    crate::reader::lemma_text_bytes(session.output, cursor, max);
}

/// Only text has to be rendered: bytes and the screen can always be read.
pub proof fn law_what_can_be_read(session: Session, cursor: u64, max: usize, mode: ReadMode)
    ensures
        mode is Raw || mode is Screen ==> extractable(session, cursor, max, mode),
        mode is Auto && emulated_alternate_screen(session.screen@) ==> extractable(
            session,
            cursor,
            max,
            mode,
        ),
        mode is Text || (mode is Auto && !emulated_alternate_screen(session.screen@)) ==> (
        extractable(session, cursor, max, mode) <==> drawn_afresh(
            text_bytes(session.output, cursor, max),
            session.snapshot.rows,
            session.snapshot.cols,
        )),
{
}

/// A read from beyond the end of the output begins and goes on at its end, and covers nothing but,
/// where it is one, the screen.
pub proof fn law_reads_beyond_the_end_begin_there(
    session: Session,
    cursor: u64,
    max: usize,
    mode: ReadMode,
    extract: Extract,
)
    requires
        session.wf(),
        extracts(session, cursor, max, mode, extract),
        cursor > session.output.end(),
    ensures
        extract.start_cursor == session.output.end(),
        extract.next_cursor == session.output.end(),
        extract.dropped_bytes == 0,
        extract.body !is Screen ==> extract.covered_from == extract.next_cursor,
{
    crate::reader::lemma_text_bytes(session.output, cursor, max);
}

} // verus!
