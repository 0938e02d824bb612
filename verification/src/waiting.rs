//! How long a read waits: until there is new output, quiet output or a pattern in new output, until
//! the session exits or the read is full, or until it is cancelled or takes too long. A match never
//! implies readiness.
use crate::buffer::{clamped, smaller, OutputBuffer};
use crate::emulator::{emulated_alternate_screen, lemma_start_is_drawable, output_of};
use crate::mcp::ReadMode;
use crate::pattern::{compile, find, pattern_error, pattern_matches, pattern_of};
use crate::reader::{line_length, up_to_line_feed, PtyReader};
use crate::render::{render_text, rendered_text, screen_lines};
use crate::screen::{drawn_afresh, fresh_terminal, is_drawn_afresh};
use crate::session::Session;
use crate::text::{
    begins_with, chars_of, join, joined, pieces, string_of, texts, trim_end, trimmed_end,
};
use crate::types::{elapsed, later, Nanos, SessionState, MILLISECOND};
use vstd::prelude::*;
use vstd::string::*;
use vstd::utf8::encode_utf8;

verus! {

/// Quiet period that ends a pattern wait when the pattern does not appear.
pub const UNTIL_IDLE_FALLBACK: Nanos = 5_000_000_000;

/// Deadline used when a wait condition is given without a longest wait.
pub const CONDITION_TIMEOUT: Nanos = 10_000_000_000;

/// The longest wait that can be asked for.
pub const LONGEST_WAIT: Nanos = 30_000_000_000;

/// Minimum spacing between evaluations while output streams.
pub const EVALUATION_INTERVAL: Nanos = 25_000_000;

/// How far before the cursor to look for the start of its line.
pub const LINE_LOOKBACK: u64 = 4096;

/// What a read waits for.
pub struct WaitOptions {
    pub timeout: Nanos,
    pub idle: Option<Nanos>,
    pub until: Option<regex::Regex>,
}

#[derive(Debug, Clone, Copy, PartialEq, Eq, Structural)]
pub enum WaitReason {
    Output,
    Idle,
    Matched,
    Exited,
    Limit,
    Timeout,
    Cancelled,
}

impl WaitReason {
    /// The name under which the reason is reported.
    pub open spec fn spec_name(self) -> Seq<char> {
        match self {
            WaitReason::Output => "output"@,
            WaitReason::Idle => "idle"@,
            WaitReason::Matched => "matched"@,
            WaitReason::Exited => "exited"@,
            WaitReason::Limit => "limit"@,
            WaitReason::Timeout => "timeout"@,
            WaitReason::Cancelled => "cancelled"@,
        }
    }

    pub fn name(self) -> (name: String)
        ensures
            name@ == self.spec_name(),
    {
        match self {
            WaitReason::Output => "output".to_string(),
            WaitReason::Idle => "idle".to_string(),
            WaitReason::Matched => "matched".to_string(),
            WaitReason::Exited => "exited".to_string(),
            WaitReason::Limit => "limit".to_string(),
            WaitReason::Timeout => "timeout".to_string(),
            WaitReason::Cancelled => "cancelled".to_string(),
        }
    }
}

/// Why a wait ended, what the pattern matched, and how long it took.
#[derive(Debug, Clone)]
pub struct WaitOutcome {
    pub reason: WaitReason,
    pub matched: Option<String>,
    pub waited_ms: u64,
}

/// So many milliseconds, or the longest span there is.
pub open spec fn milliseconds(ms: u64) -> Nanos {
    if ms * MILLISECOND > Nanos::MAX {
        Nanos::MAX
    } else {
        (ms * MILLISECOND) as Nanos
    }
}

fn from_milliseconds(ms: u64) -> (span: Nanos)
    ensures
        span == milliseconds(ms),
{
    if ms > 18_446_744_073_709 {
        return 18_446_744_073_709_551_615;
    }
    ms * MILLISECOND
}

impl WaitOptions {
    /// The options for a request: the longest wait in milliseconds, capped, which defaults to none
    /// without a condition and to 10 seconds with one; the quiet period, which defaults to 5
    /// seconds with a pattern and is disabled by zero; and the pattern. Fails with the reason why
    /// the pattern cannot be compiled.
    pub fn from_request(yield_time_ms: Option<u64>, idle_ms: Option<u64>, until: Option<&str>) -> (r:
        Result<WaitOptions, String>)
        ensures
            match r {
                Ok(options) => {
                    &&& options.timeout == match yield_time_ms {
                        Some(ms) => if milliseconds(ms) <= LONGEST_WAIT {
                            milliseconds(ms)
                        } else {
                            LONGEST_WAIT
                        },
                        None => if idle_ms is Some || until is Some {
                            CONDITION_TIMEOUT
                        } else {
                            0
                        },
                    }
                    &&& options.idle == match idle_ms {
                        Some(ms) => if ms == 0 {
                            None
                        } else {
                            Some(milliseconds(ms))
                        },
                        None => if until is Some {
                            Some(UNTIL_IDLE_FALLBACK)
                        } else {
                            None
                        },
                    }
                    &&& yield_time_ms matches Some(ms) ==> options.timeout == (if ms <= 30_000 {
                        ms * 1_000_000
                    } else {
                        30_000_000_000
                    })
                    &&& yield_time_ms is None && (idle_ms is Some || until is Some)
                        ==> options.timeout == 10_000_000_000
                    &&& idle_ms is None && until is Some ==> options.idle == Some(5_000_000_000u64)
                    &&& idle_ms matches Some(ms) ==> 0 < ms <= 18_446_744_073_709 ==> options.idle
                        == Some((ms * 1_000_000) as u64)
                    &&& options.until is Some == until is Some
                    &&& until is Some ==> pattern_error(until->0@) is None && pattern_of(
                        options.until->0,
                    ) == until->0@
                },
                Err(error) => until is Some && pattern_error(until->0@) == Some(error@),
            },
    {
        let timeout: Nanos = match yield_time_ms {
            Some(ms) => {
                let asked: Nanos = from_milliseconds(ms);
                if asked <= LONGEST_WAIT {
                    asked
                } else {
                    LONGEST_WAIT
                }
            },
            None => if idle_ms.is_some() || until.is_some() {
                CONDITION_TIMEOUT
            } else {
                0
            },
        };
        let idle: Option<Nanos> = match idle_ms {
            Some(ms) => if ms == 0 {
                None
            } else {
                Some(from_milliseconds(ms))
            },
            None => if until.is_some() {
                Some(UNTIL_IDLE_FALLBACK)
            } else {
                None
            },
        };
        match until {
            None => Ok(WaitOptions { timeout, idle, until: None }),
            Some(pattern) => match compile(pattern) {
                Ok(regex) => Ok(WaitOptions { timeout, idle, until: Some(regex) }),
                Err(error) => Err(error),
            },
        }
    }
}

/// The lines of a text. A line feed at the end does not begin another line.
pub open spec fn lines_of(text: Seq<char>) -> Seq<Seq<char>> {
    if pieces(text).last().len() == 0 {
        pieces(text).drop_last()
    } else {
        pieces(text)
    }
}

/// A text whose lines have no white space at their ends.
pub open spec fn trimmed_lines(text: Seq<char>) -> Seq<char> {
    joined(lines_of(text).map_values(|line: Seq<char>| trimmed_end(line)), "\n"@)
}

/// The cursor line keeps its trailing spaces; patterns may be written with or without them.
pub fn trim_lines(text: &str) -> (r: String)
    ensures
        r@ == trimmed_lines(text@),
{
    let chars = chars_of(text);
    let mut lines: Vec<String> = Vec::new();
    let mut line: Vec<char> = Vec::new();
    let mut i: usize = 0;
    let ghost trim = |line: Seq<char>| trimmed_end(line);
    assert(chars@.take(0) == Seq::<char>::empty());
    assert(texts(lines@) == pieces(chars@.take(0)).drop_last().map_values(trim));
    while i < chars.len()
        invariant
            i <= chars@.len(),
            pieces(chars@.take(i as int)).len() >= 1,
            texts(lines@) == pieces(chars@.take(i as int)).drop_last().map_values(trim),
            line@ == pieces(chars@.take(i as int)).last(),
            trim == (|line: Seq<char>| trimmed_end(line)),
        decreases chars@.len() - i,
    {
        let ghost done = chars@.take(i as int);
        let ghost before = texts(lines@);
        assert(chars@.take(i + 1).drop_last() == done);
        assert(chars@.take(i + 1).last() == chars@[i as int]);
        let c = chars[i];
        i += 1;
        if c == '\n' {
            let whole = string_of(line.as_slice());
            lines.push(trim_end(whole.as_str()));
            line = Vec::new();
            proof {
                assert(pieces(chars@.take(i as int)).drop_last() == pieces(done));
                assert(texts(lines@) == before.push(trimmed_end(pieces(done).last())));
                assert(pieces(done).map_values(trim) == pieces(done).drop_last().map_values(
                    trim,
                ).push(trimmed_end(pieces(done).last())));
            }
        } else {
            line.push(c);
            assert(pieces(chars@.take(i as int)).drop_last() == pieces(done).drop_last());
        }
    }
    assert(chars@.take(i as int) == chars@);
    if line.len() > 0 {
        let ghost before = texts(lines@);
        let whole = string_of(line.as_slice());
        lines.push(trim_end(whole.as_str()));
        proof {
            assert(texts(lines@) == before.push(trimmed_end(pieces(chars@).last())));
            assert(pieces(chars@).map_values(trim) == pieces(chars@).drop_last().map_values(
                trim,
            ).push(trimmed_end(pieces(chars@).last())));
        }
    }
    join(&lines, "\n")
}

/// The first of the matches from the `i`th on that ends behind the given number of bytes.
pub open spec fn first_ending_behind(
    matches: Seq<(nat, Seq<char>)>,
    min_end: nat,
    i: int,
) -> Option<Seq<char>>
    decreases matches.len() - i,
{
    if i < 0 || i >= matches.len() {
        None
    } else if matches[i].0 > min_end {
        Some(matches[i].1)
    } else {
        first_ending_behind(matches, min_end, i + 1)
    }
}

/// What a pattern matches first in a text beyond the part that was seen: a match counts where it
/// ends behind that part, or anywhere where the text does not begin with it.
pub open spec fn new_match_of(
    pattern: Seq<char>,
    text: Seq<char>,
    seen: Seq<char>,
) -> Option<Seq<char>> {
    first_ending_behind(
        pattern_matches(pattern, text),
        if seen.is_prefix_of(text) {
            encode_utf8(seen).len()
        } else {
            0
        },
        0,
    )
}

/// An optional text by its characters.
pub open spec fn text_of(text: Option<String>) -> Option<Seq<char>> {
    match text {
        Some(text) => Some(text@),
        None => None,
    }
}

/// Picks the first match that ends behind the given number of bytes.
pub fn pick_match(matches: &Vec<(usize, String)>, min_end: usize) -> (r: Option<String>)
    ensures
        text_of(r) == first_ending_behind(
            matches@.map_values(|m: (usize, String)| (m.0 as nat, m.1@)),
            min_end as nat,
            0,
        ),
{
    let ghost all = matches@.map_values(|m: (usize, String)| (m.0 as nat, m.1@));
    let mut i: usize = 0;
    while i < matches.len()
        invariant
            i <= matches@.len(),
            all == matches@.map_values(|m: (usize, String)| (m.0 as nat, m.1@)),
            first_ending_behind(all, min_end as nat, 0) == first_ending_behind(
                all,
                min_end as nat,
                i as int,
            ),
        decreases matches@.len() - i,
    {
        assert(all[i as int] == (matches@[i as int].0 as nat, matches@[i as int].1@));
        if matches[i].0 > min_end {
            return Some(matches[i].1.clone());
        }
        i += 1;
    }
    None
}

/// Looks for a match in a text beyond the part that was seen.
pub fn new_match(regex: &regex::Regex, text: &str, seen: &str) -> (r: Option<String>)
    ensures
        text_of(r) == new_match_of(pattern_of(*regex), text@, seen@),
{
    let min_end: usize = if begins_with(text, seen) {
        seen.as_bytes().len()
    } else {
        0
    };
    let matches = find(regex, text);
    assert(matches@.map_values(|m: (usize, String)| (m.0 as nat, m.1@)) =~= pattern_matches(
        pattern_of(*regex),
        text@,
    ));
    pick_match(&matches, min_end)
}

/// The cursor of the start of the line that holds the given cursor: just behind the last line feed
/// before it, or as far back as output is retained and looked at.
pub open spec fn line_start(buffer: OutputBuffer, cursor: u64) -> int {
    let low = clamped(cursor - LINE_LOOKBACK, buffer.start() as int, buffer.end() as int);
    if cursor <= low {
        low
    } else {
        low + up_to_line_feed(
            buffer@.subrange(low - buffer.start(), cursor - buffer.start()),
        ).len()
    }
}

/// The bytes in which a pattern is looked for: from the start of the line that holds the cursor,
/// up to `max` bytes behind the cursor.
pub open spec fn window(buffer: OutputBuffer, cursor: u64, max: usize) -> Seq<u8> {
    let from = line_start(buffer, cursor);
    let ahead = if cursor >= from {
        cursor - from
    } else {
        0
    };
    buffer@.subrange(
        from - buffer.start(),
        smaller(from + ahead + max, buffer.end() as int) - buffer.start(),
    )
}

/// How many bytes of the window stand before the cursor.
pub open spec fn window_seen(buffer: OutputBuffer, cursor: u64, max: usize) -> int {
    let from = line_start(buffer, cursor);
    if cursor >= from {
        smaller(cursor - from, window(buffer, cursor, max).len() as int)
    } else {
        0
    }
}

/// What a pattern matches in the rendered text of a window beyond the text before the cursor, with
/// or without the white space at the ends of lines.
pub open spec fn text_match_of(
    pattern: Seq<char>,
    buffer: OutputBuffer,
    cursor: u64,
    max: usize,
    rows: u16,
    cols: u16,
) -> Option<Seq<char>> {
    let bytes = window(buffer, cursor, max);
    let text = rendered_text(bytes, rows, cols);
    let seen = rendered_text(bytes.take(window_seen(buffer, cursor, max)), rows, cols);
    match new_match_of(pattern, text, seen) {
        Some(found) => Some(found),
        None => new_match_of(pattern, trimmed_lines(text), trimmed_lines(seen)),
    }
}

proof fn lemma_line_start(buffer: OutputBuffer, cursor: u64)
    requires
        buffer.wf(),
        cursor < buffer.end(),
    ensures
        ({
            let from = line_start(buffer, cursor);
            &&& buffer.start() <= from <= buffer.end()
            &&& cursor >= buffer.start() ==> from <= cursor
            &&& cursor - from <= LINE_LOOKBACK
        }),
{
    let low = clamped(cursor - LINE_LOOKBACK, buffer.start() as int, buffer.end() as int);
    if cursor > low {
        crate::reader::lemma_up_to_line_feed(
            buffer@.subrange(low - buffer.start(), cursor - buffer.start()),
        );
    }
}

/// Reads the bytes in which a pattern is looked for, and says how many of them stand before the
/// cursor.
pub fn read_window(buffer: &OutputBuffer, cursor: u64, max: usize) -> (r: (Vec<u8>, usize))
    requires
        buffer.wf(),
        cursor < buffer.end(),
        max <= usize::MAX - LINE_LOOKBACK,
    ensures
        r.0@ == window(*buffer, cursor, max),
        r.1 == window_seen(*buffer, cursor, max),
        r.1 <= r.0@.len(),
{
    proof {
        lemma_line_start(*buffer, cursor);
    }
    let (start, _) = buffer.range();
    let back: u64 = cursor.saturating_sub(LINE_LOOKBACK);
    let low: u64 = if back < start {
        start
    } else {
        back
    };
    let from: u64 = if cursor <= low {
        low
    } else {
        let before = buffer.read(low, (cursor - low) as usize);
        assert(before.bytes@ == buffer@.subrange(low - buffer.start(), cursor - buffer.start()));
        low + line_length(&before.bytes) as u64
    };
    assert(from == line_start(*buffer, cursor));
    let ahead: usize = cursor.saturating_sub(from) as usize;
    let data = buffer.read(from, ahead + max);
    let seen: usize = if ahead < data.bytes.len() {
        ahead
    } else {
        data.bytes.len()
    };
    (data.bytes, seen)
}

/// Matches rendered text from the start of the line that holds `cursor`, so a prompt split across
/// reads still matches, but only matches that end in new output count.
pub fn text_match(
    buffer: &OutputBuffer,
    cursor: u64,
    max: usize,
    rows: u16,
    cols: u16,
    regex: &regex::Regex,
) -> (r: Option<String>)
    requires
        buffer.wf(),
        cursor < buffer.end(),
        max <= usize::MAX - LINE_LOOKBACK,
        drawn_afresh(window(*buffer, cursor, max), rows, cols),
    ensures
        text_of(r) == text_match_of(pattern_of(*regex), *buffer, cursor, max, rows, cols),
{
    let (bytes, prefix) = read_window(buffer, cursor, max);
    let (text, _) = render_text(bytes.as_slice(), rows, cols);
    let mut before = bytes;
    proof {
        reveal_with_fuel(output_of, 2);
        lemma_start_is_drawable(fresh_terminal(rows, cols), before@, prefix as int);
    }
    before.truncate(prefix);
    let (seen, _) = render_text(before.as_slice(), rows, cols);
    match new_match(regex, text.as_str(), seen.as_str()) {
        Some(found) => Some(found),
        None => {
            let text = trim_lines(text.as_str());
            let seen = trim_lines(seen.as_str());
            new_match(regex, text.as_str(), seen.as_str())
        },
    }
}

/// What was matched, by row.
pub open spec fn row_texts_of(matches: Seq<(usize, String)>) -> Seq<(int, Seq<char>)> {
    matches.map_values(|m: (usize, String)| (m.0 as int, m.1@))
}

/// The matches of a text as matches in the given row.
pub open spec fn in_row(row: int, matches: Seq<(nat, Seq<char>)>) -> Seq<(int, Seq<char>)> {
    matches.map_values(|m: (nat, Seq<char>)| (row, m.1))
}

/// The matches of a pattern in the rows of a screen, in each row with and then without the white
/// space at its end.
pub open spec fn screen_matches_of(pattern: Seq<char>, lines: Seq<Seq<char>>) -> Seq<(
    int,
    Seq<char>,
)>
    decreases lines.len(),
{
    if lines.len() == 0 {
        Seq::empty()
    } else {
        let row = lines.len() - 1;
        screen_matches_of(pattern, lines.drop_last()) + in_row(
            row,
            pattern_matches(pattern, lines.last()),
        ) + in_row(row, pattern_matches(pattern, trimmed_end(lines.last())))
    }
}

/// Appends the matches of a text as matches in the given row.
fn match_row(regex: &regex::Regex, row: usize, line: &str, out: &mut Vec<(usize, String)>)
    ensures
        row_texts_of(final(out)@) == row_texts_of(old(out)@) + in_row(
            row as int,
            pattern_matches(pattern_of(*regex), line@),
        ),
{
    let ghost before = row_texts_of(out@);
    let matches = find(regex, line);
    let ghost named = pattern_matches(pattern_of(*regex), line@);
    let mut i: usize = 0;
    assert(before + in_row(row as int, named.take(0)) == before);
    while i < matches.len()
        invariant
            i <= matches@.len(),
            matches@.len() == named.len(),
            forall|k: int|
                0 <= k < matches@.len() ==> ((#[trigger] matches@[k]).0 as nat, matches@[k].1@)
                    == named[k],
            row_texts_of(out@) == before + in_row(row as int, named.take(i as int)),
        decreases matches@.len() - i,
    {
        let ghost partly = row_texts_of(out@);
        out.push((row, matches[i].1.clone()));
        i += 1;
        assert(row_texts_of(out@) == partly.push((row as int, named[i - 1].1)));
        assert(in_row(row as int, named.take(i as int)) == in_row(
            row as int,
            named.take(i - 1),
        ).push((row as int, named[i - 1].1)));
    }
    assert(named.take(i as int) == named);
}

/// Looks for a pattern in the rows of a screen.
pub fn screen_matches(regex: &regex::Regex, lines: &Vec<String>) -> (matches: Vec<(usize, String)>)
    ensures
        row_texts_of(matches@) == screen_matches_of(pattern_of(*regex), texts(lines@)),
{
    let ghost all = texts(lines@);
    let mut matches: Vec<(usize, String)> = Vec::new();
    let mut row: usize = 0;
    assert(row_texts_of(matches@) == screen_matches_of(pattern_of(*regex), all.take(0)));
    while row < lines.len()
        invariant
            row <= lines@.len(),
            all == texts(lines@),
            row_texts_of(matches@) == screen_matches_of(
                pattern_of(*regex),
                all.take(row as int),
            ),
        decreases lines@.len() - row,
    {
        assert(all.take(row + 1).drop_last() == all.take(row as int));
        assert(all.take(row + 1).last() == lines@[row as int]@);
        match_row(regex, row, lines[row].as_str(), &mut matches);
        let trimmed = trim_end(lines[row].as_str());
        match_row(regex, row, trimmed.as_str(), &mut matches);
        row += 1;
    }
    assert(all.take(row as int) == all);
    matches
}

/// The first match from the `i`th on that was not there before.
pub open spec fn first_unseen(
    matches: Seq<(int, Seq<char>)>,
    seen: Seq<(int, Seq<char>)>,
    i: int,
) -> Option<Seq<char>>
    decreases matches.len() - i,
{
    if i < 0 || i >= matches.len() {
        None
    } else if !seen.contains(matches[i]) {
        Some(matches[i].1)
    } else {
        first_unseen(matches, seen, i + 1)
    }
}

/// Whether a match is among those that were there before.
fn is_among(row: usize, text: &String, seen: &Vec<(usize, String)>) -> (r: bool)
    ensures
        r == row_texts_of(seen@).contains((row as int, text@)),
{
    let mut i: usize = 0;
    while i < seen.len()
        invariant
            i <= seen@.len(),
            forall|k: int| 0 <= k < i ==> row_texts_of(seen@)[k] != (row as int, text@),
        decreases seen@.len() - i,
    {
        assert(row_texts_of(seen@)[i as int] == (seen@[i as int].0 as int, seen@[i as int].1@));
        if seen[i].0 == row && seen[i].1 == *text {
            assert(row_texts_of(seen@)[i as int] == (row as int, text@));
            return true;
        }
        i += 1;
    }
    false
}

/// Picks the first match that was not there before.
pub fn pick_unseen(matches: &Vec<(usize, String)>, seen: &Vec<(usize, String)>) -> (r: Option<
    String,
>)
    ensures
        text_of(r) == first_unseen(row_texts_of(matches@), row_texts_of(seen@), 0),
{
    let ghost all = row_texts_of(matches@);
    let ghost before = row_texts_of(seen@);
    let mut i: usize = 0;
    while i < matches.len()
        invariant
            i <= matches@.len(),
            all == row_texts_of(matches@),
            before == row_texts_of(seen@),
            first_unseen(all, before, 0) == first_unseen(all, before, i as int),
        decreases matches@.len() - i,
    {
        assert(all[i as int] == (matches@[i as int].0 as int, matches@[i as int].1@));
        if !is_among(matches[i].0, &matches[i].1, seen) {
            return Some(matches[i].1.clone());
        }
        i += 1;
    }
    None
}

/// What to do about a wait.
#[derive(Debug)]
pub enum WaitStep {
    Done(WaitOutcome),
    /// Wait for a change of the session, but no longer than this.
    Sleep(Nanos),
}

/// A read that waits.
pub struct Waiting {
    pub started: Nanos,
    pub deadline: Nanos,
    pub cursor: u64,
    pub max: usize,
    pub mode: ReadMode,
    /// The matches on the screen that are not new.
    pub baseline: Vec<(usize, String)>,
}

impl Waiting {
    /// The matches on the screen when a wait begins that are not new: those visible while nothing
    /// is unread.
    pub open spec fn baseline_of(session: Session, cursor: u64, options: WaitOptions) -> Seq<(
        int,
        Seq<char>,
    )> {
        if options.until is Some && cursor >= session.output.end() {
            screen_matches_of(pattern_of(options.until->0), screen_lines(session.screen@))
        } else {
            Seq::empty()
        }
    }

    /// Begins to wait.
    pub fn begin(
        session: &Session,
        cursor: u64,
        max: usize,
        mode: ReadMode,
        options: &WaitOptions,
        now: Nanos,
    ) -> (waiting: Waiting)
        requires
            session.wf(),
        ensures
            row_texts_of(waiting.baseline@) == Self::baseline_of(*session, cursor, *options),
            waiting == (Waiting {
                started: now,
                deadline: later(now, options.timeout),
                cursor,
                max,
                mode,
                baseline: waiting.baseline,
            }),
    {
        let mut baseline: Vec<(usize, String)> = Vec::new();
        let (_, end) = session.output.range();
        assert(row_texts_of(baseline@) == Seq::<(int, Seq<char>)>::empty());
        if let Some(regex) = &options.until {
            if cursor >= end {
                let screen = PtyReader { session }.screen();
                baseline = screen_matches(regex, &screen.lines);
            }
        }
        Waiting {
            started: now,
            deadline: now.saturating_add(options.timeout),
            cursor,
            max,
            mode,
            baseline,
        }
    }

    /// Whether the pattern has to be looked for in rendered text.
    pub open spec fn looks_at_text(&self, session: Session, options: WaitOptions) -> bool {
        &&& options.until is Some
        &&& session.output.end() > self.cursor
        &&& !self.mode.spec_shows_screen(emulated_alternate_screen(session.screen@))
    }

    /// Whether the text that has to be looked at can be rendered.
    pub open spec fn renderable(&self, session: Session, options: WaitOptions) -> bool {
        self.looks_at_text(session, options) ==> self.max <= usize::MAX - LINE_LOOKBACK
            && drawn_afresh(
            window(session.output, self.cursor, self.max),
            session.snapshot.rows,
            session.snapshot.cols,
        )
    }

    /// Checks whether the text that has to be looked at can be rendered.
    pub fn is_renderable(&self, session: &Session, options: &WaitOptions) -> (r: bool)
        requires
            session.wf(),
        ensures
            r == self.renderable(*session, *options),
    {
        let (_, end) = session.output.range();
        if options.until.is_none() || end <= self.cursor || self.mode.shows_screen(
            session.screen.alternate_screen(),
        ) {
            return true;
        }
        if self.max > usize::MAX - LINE_LOOKBACK as usize {
            return false;
        }
        let (bytes, _) = read_window(&session.output, self.cursor, self.max);
        is_drawn_afresh(bytes.as_slice(), session.snapshot.rows, session.snapshot.cols)
    }

    /// What the pattern matches in new output.
    pub open spec fn found(&self, session: Session, options: WaitOptions) -> Option<Seq<char>> {
        if options.until is None || session.output.end() <= self.cursor {
            None
        } else if self.looks_at_text(session, options) {
            text_match_of(
                pattern_of(options.until->0),
                session.output,
                self.cursor,
                self.max,
                session.snapshot.rows,
                session.snapshot.cols,
            )
        } else {
            first_unseen(
                screen_matches_of(
                    pattern_of(options.until->0),
                    screen_lines(session.screen@),
                ),
                row_texts_of(self.baseline@),
                0,
            )
        }
    }

    /// When new output will have been quiet for long enough.
    pub open spec fn quiet_at(session: Session, options: WaitOptions) -> Option<Nanos> {
        match (options.idle, session.snapshot.activity.last_output_at) {
            (Some(idle), Some(last)) => Some(later(last, idle)),
            _ => None,
        }
    }

    /// Why the wait is over, if it is.
    pub open spec fn verdict(
        &self,
        session: Session,
        options: WaitOptions,
        now: Nanos,
    ) -> Option<WaitReason> {
        let new_output = session.output.end() > self.cursor;
        let finished = session.snapshot.state == SessionState::Finished;
        let quiet_at = Self::quiet_at(session, options);
        if self.found(session, options) is Some {
            Some(WaitReason::Matched)
        } else if new_output && !finished && options.until is None && options.idle is None {
            Some(WaitReason::Output)
        } else if new_output && !finished && !self.mode.spec_shows_screen(
            emulated_alternate_screen(session.screen@),
        ) && session.output.end() - self.cursor >= self.max {
            Some(WaitReason::Limit)
        } else if new_output && !finished && quiet_at is Some && now >= quiet_at->0 {
            Some(WaitReason::Idle)
        } else if finished {
            Some(WaitReason::Exited)
        } else if now >= self.deadline {
            Some(WaitReason::Timeout)
        } else {
            None
        }
    }

    /// When a wait that is not over has to be looked at again if nothing changes.
    pub open spec fn wake_at(&self, session: Session, options: WaitOptions) -> Nanos {
        let quiet_at = Self::quiet_at(session, options);
        if session.output.end() > self.cursor && quiet_at is Some && quiet_at->0 < self.deadline {
            quiet_at->0
        } else {
            self.deadline
        }
    }

    /// The end of the wait for the given reason.
    pub fn done(&self, reason: WaitReason, matched: Option<String>, now: Nanos) -> (outcome:
        WaitOutcome)
        ensures
            outcome == (WaitOutcome {
                reason,
                matched,
                waited_ms: elapsed(self.started, now) / MILLISECOND,
            }),
    {
        WaitOutcome { reason, matched, waited_ms: now.saturating_sub(self.started) / MILLISECOND }
    }

    /// Whether this is what is to be done about the wait.
    pub open spec fn decides(
        &self,
        session: Session,
        options: WaitOptions,
        now: Nanos,
        step: WaitStep,
    ) -> bool {
        match step {
            WaitStep::Done(outcome) => {
                &&& self.verdict(session, options, now) == Some(outcome.reason)
                &&& text_of(outcome.matched) == self.found(session, options)
                &&& outcome.waited_ms == elapsed(self.started, now) / MILLISECOND
            },
            WaitStep::Sleep(until) => {
                &&& self.verdict(session, options, now) is None
                &&& until == self.wake_at(session, options)
            },
        }
    }

    /// Looks at the session and says whether the wait is over.
    pub fn evaluate(&self, session: &Session, options: &WaitOptions, now: Nanos) -> (step: WaitStep)
        requires
            session.wf(),
            self.renderable(*session, *options),
        ensures
            self.decides(*session, *options, now, step),
    {
        let (_, end) = session.output.range();
        let finished = session.snapshot.state == SessionState::Finished;
        let mut wake: Nanos = self.deadline;
        if end > self.cursor {
            let screen = PtyReader { session }.screen();
            let screen_mode = self.mode.shows_screen(screen.alternate_screen);
            if let Some(regex) = &options.until {
                let found = if screen_mode {
                    let matches = screen_matches(regex, &screen.lines);
                    pick_unseen(&matches, &self.baseline)
                } else {
                    text_match(
                        &session.output,
                        self.cursor,
                        self.max,
                        session.snapshot.rows,
                        session.snapshot.cols,
                        regex,
                    )
                };
                if found.is_some() {
                    return WaitStep::Done(self.done(WaitReason::Matched, found, now));
                }
            }
            if !finished {
                if options.until.is_none() && options.idle.is_none() {
                    return WaitStep::Done(self.done(WaitReason::Output, None, now));
                }
                if !screen_mode && end - self.cursor >= self.max as u64 {
                    return WaitStep::Done(self.done(WaitReason::Limit, None, now));
                }
                if let Some(idle) = options.idle {
                    if let Some(last) = session.snapshot.activity.last_output_at {
                        let quiet_at: Nanos = last.saturating_add(idle);
                        if now >= quiet_at {
                            return WaitStep::Done(self.done(WaitReason::Idle, None, now));
                        }
                        if quiet_at < wake {
                            wake = quiet_at;
                        }
                    }
                }
            }
        }
        if finished {
            return WaitStep::Done(self.done(WaitReason::Exited, None, now));
        }
        if now >= self.deadline {
            return WaitStep::Done(self.done(WaitReason::Timeout, None, now));
        }
        WaitStep::Sleep(wake)
    }

    /// Looks at the session and says whether the wait is over, where the text that has to be
    /// looked at can be rendered.
    pub fn try_evaluate(&self, session: &Session, options: &WaitOptions, now: Nanos) -> (r: Option<
        WaitStep,
    >)
        requires
            session.wf(),
        ensures
            match r {
                Some(step) => self.renderable(*session, *options) && self.decides(
                    *session,
                    *options,
                    now,
                    step,
                ),
                None => !self.renderable(*session, *options),
            },
    {
        if self.is_renderable(session, options) {
            Some(self.evaluate(session, options, now))
        } else {
            None
        }
    }

    /// Until when further output is gathered after a change, instead of rendering after every
    /// chunk.
    pub fn batch_until(&self, now: Nanos) -> (until: Nanos)
        ensures
            until == if later(now, EVALUATION_INTERVAL) < self.deadline {
                later(now, EVALUATION_INTERVAL)
            } else {
                self.deadline
            },
            until <= self.deadline,
            until <= now + 25_000_000,
            until == now + 25_000_000 || until == self.deadline || until == Nanos::MAX,
    {
        let until: Nanos = now.saturating_add(EVALUATION_INTERVAL);
        if until < self.deadline {
            until
        } else {
            self.deadline
        }
    }
}

/// A wait is over by its deadline, whatever it waits for.
pub proof fn law_waits_end_by_their_deadline(
    waiting: Waiting,
    session: Session,
    options: WaitOptions,
    now: Nanos,
)
    requires
        session.wf(),
        now >= waiting.deadline,
    ensures
        waiting.verdict(session, options, now) is Some,
{
}

/// A wait for a finished session is over, and reports the exit unless the pattern matched.
pub proof fn law_finished_sessions_are_not_waited_for(
    waiting: Waiting,
    session: Session,
    options: WaitOptions,
    now: Nanos,
)
    requires
        session.wf(),
        session.snapshot.state == SessionState::Finished,
    ensures
        waiting.verdict(session, options, now) == Some(
            if waiting.found(session, options) is Some {
                WaitReason::Matched
            } else {
                WaitReason::Exited
            },
        ),
{
}

/// Without new output nothing is reported as matched, quiet, full or new.
pub proof fn law_nothing_new_is_no_event(
    waiting: Waiting,
    session: Session,
    options: WaitOptions,
    now: Nanos,
)
    requires
        session.wf(),
        session.output.end() <= waiting.cursor,
    ensures
        waiting.verdict(session, options, now) is None || waiting.verdict(session, options, now)
            == Some(WaitReason::Exited) || waiting.verdict(session, options, now) == Some(
            WaitReason::Timeout,
        ),
{
}

/// A screen match that was visible while nothing was unread is not reported, while the row shows
/// it.
pub proof fn law_seen_matches_are_not_new(
    matches: Seq<(int, Seq<char>)>,
    seen: Seq<(int, Seq<char>)>,
    i: int,
)
    requires
        0 <= i <= matches.len(),
        forall|k: int| i <= k < matches.len() ==> seen.contains(#[trigger] matches[k]),
    ensures
        first_unseen(matches, seen, i) is None,
    decreases matches.len() - i,
{
    if i < matches.len() {
        law_seen_matches_are_not_new(matches, seen, i + 1);
    }
}

/// Output that has been quiet for as long as was asked ends a wait, with or without a pattern, and a
/// wait that goes on is looked at again by the time its output would have been quiet for that long.
pub proof fn law_quiet_output_ends_a_wait(
    waiting: Waiting,
    session: Session,
    options: WaitOptions,
    now: Nanos,
    step: WaitStep,
    idle: Nanos,
    last: Nanos,
)
    requires
        session.wf(),
        waiting.decides(session, options, now, step),
        session.snapshot.state != SessionState::Finished,
        session.output.end() > waiting.cursor,
        options.idle == Some(idle),
        session.snapshot.activity.last_output_at == Some(last),
    ensures
        now >= last + idle ==> waiting.verdict(session, options, now) is Some && (step matches
            WaitStep::Done(outcome) && (outcome.reason is Matched || outcome.reason is Limit
            || outcome.reason is Idle)),
        step matches WaitStep::Sleep(until) ==> now < last + idle && until <= last + idle && until
            <= waiting.deadline && (until == last + idle || until == waiting.deadline),
{
}

/// A reason for which a wait ends holds of the session: something new matched, there is new output
/// and nothing else is waited for, as much as is read is there, new output has been quiet, the
/// session has finished, or the deadline has passed.
pub proof fn law_waits_end_for_a_reason(
    waiting: Waiting,
    session: Session,
    options: WaitOptions,
    now: Nanos,
    outcome: WaitOutcome,
)
    requires
        session.wf(),
        waiting.decides(session, options, now, WaitStep::Done(outcome)),
    ensures
        ({
            let finished = session.snapshot.state == SessionState::Finished;
            let new_output = session.output.end() > waiting.cursor;
            match outcome.reason {
                WaitReason::Matched => new_output && options.until is Some,
                WaitReason::Output => new_output && !finished && options.until is None
                    && options.idle is None,
                WaitReason::Limit => {
                    &&& new_output && !finished
                    &&& session.output.end() >= waiting.cursor + waiting.max
                    &&& options.until is Some || options.idle is Some
                    &&& waiting.mode !is Screen
                    &&& waiting.mode is Auto ==> !emulated_alternate_screen(session.screen@)
                },
                WaitReason::Idle => {
                    &&& new_output && !finished
                    &&& options.idle is Some
                    &&& session.snapshot.activity.last_output_at is Some
                    &&& now >= session.snapshot.activity.last_output_at->0 + options.idle->0 || now
                        == Nanos::MAX
                },
                WaitReason::Exited => finished,
                WaitReason::Timeout => !finished && now >= waiting.deadline,
                WaitReason::Cancelled => false,
            }
        }),
        outcome.matched is Some <==> outcome.reason is Matched,
        now >= waiting.started ==> outcome.waited_ms == (now - waiting.started) / 1_000_000,
        now < waiting.started ==> outcome.waited_ms == 0,
{
}

/// A wait goes on only while nothing is there to end it: the session runs, the deadline has not
/// passed, and there is no new output, or output that is not quiet, not all that is read and not
/// what is waited for.
pub proof fn law_waits_go_on_only_for_a_reason(
    waiting: Waiting,
    session: Session,
    options: WaitOptions,
    now: Nanos,
    until: Nanos,
)
    requires
        session.wf(),
        waiting.decides(session, options, now, WaitStep::Sleep(until)),
    ensures
        session.snapshot.state != SessionState::Finished,
        now < until <= waiting.deadline,
        session.output.end() > waiting.cursor ==> {
            &&& options.until is Some || options.idle is Some
            &&& waiting.mode is Text || waiting.mode is Raw || (waiting.mode is Auto
                && !emulated_alternate_screen(session.screen@)) ==> session.output.end()
                < waiting.cursor + waiting.max
        },
        session.output.end() <= waiting.cursor || options.idle is None ==> until
            == waiting.deadline,
{
}

/// A wait begins now and ends, where nothing else ends it, when the time asked for has passed.
pub proof fn law_waits_last_as_long_as_asked(
    waiting: Waiting,
    session: Session,
    options: WaitOptions,
    began: Nanos,
    now: Nanos,
    step: WaitStep,
)
    requires
        session.wf(),
        waiting.started == began,
        waiting.deadline == later(began, options.timeout),
        waiting.decides(session, options, now, step),
        session.snapshot.state != SessionState::Finished,
        session.output.end() <= waiting.cursor,
        began + options.timeout <= Nanos::MAX,
    ensures
        now < began + options.timeout ==> step == WaitStep::Sleep((began + options.timeout) as u64),
        now >= began + options.timeout ==> (step matches WaitStep::Done(outcome) && outcome.reason
            is Timeout),
{
}

/// No two reasons are reported under one name.
pub proof fn law_wait_reasons_have_names_of_their_own(a: WaitReason, b: WaitReason)
    ensures
        a.spec_name() == b.spec_name() ==> a == b,
{
    reveal_strlit("output");
    reveal_strlit("idle");
    reveal_strlit("matched");
    reveal_strlit("exited");
    reveal_strlit("limit");
    reveal_strlit("timeout");
    reveal_strlit("cancelled");
    assert("output"@[0] == 'o' && "idle"@[0] == 'i' && "matched"@[0] == 'm' && "exited"@[0] == 'e'
        && "limit"@[0] == 'l' && "timeout"@[0] == 't' && "cancelled"@[0] == 'c');
}

proof fn lemma_first_ending_behind(matches: Seq<(nat, Seq<char>)>, min_end: nat, i: int)
    requires
        0 <= i <= matches.len(),
    ensures
        match first_ending_behind(matches, min_end, i) {
            Some(found) => exists|k: int|
                i <= k < matches.len() && (#[trigger] matches[k]).0 > min_end && matches[k].1
                    == found && forall|j: int|
                    i <= j < k ==> (#[trigger] matches[j]).0 <= min_end,
            None => forall|j: int| i <= j < matches.len() ==> (#[trigger] matches[j]).0 <= min_end,
        },
    decreases matches.len() - i,
{
    if i < matches.len() {
        if matches[i].0 > min_end {
            assert(matches[i].1 == first_ending_behind(matches, min_end, i)->0);
        } else {
            lemma_first_ending_behind(matches, min_end, i + 1);
            if let Some(found) = first_ending_behind(matches, min_end, i + 1) {
                let k = choose|k: int|
                    i + 1 <= k < matches.len() && (#[trigger] matches[k]).0 > min_end
                        && matches[k].1 == found && forall|j: int|
                        i + 1 <= j < k ==> (#[trigger] matches[j]).0 <= min_end;
                assert forall|j: int| i <= j < k implies (#[trigger] matches[j]).0 <= min_end by {}
            }
        }
    }
}

/// A new match is the first that ends behind the text that was seen, where the text begins with it,
/// and otherwise the first that ends behind the very start. Where there is no such match, nothing is
/// new.
pub proof fn law_the_first_new_match_is_found(pattern: Seq<char>, text: Seq<char>, seen: Seq<char>)
    ensures
        ({
            let matches = pattern_matches(pattern, text);
            let behind = if seen.is_prefix_of(text) {
                encode_utf8(seen).len()
            } else {
                0
            };
            match new_match_of(pattern, text, seen) {
                Some(found) => exists|k: int|
                    0 <= k < matches.len() && (#[trigger] matches[k]).0 > behind && matches[k].1
                        == found && forall|j: int|
                        0 <= j < k ==> (#[trigger] matches[j]).0 <= behind,
                None => forall|j: int|
                    0 <= j < matches.len() ==> (#[trigger] matches[j]).0 <= behind,
            }
        }),
{
    lemma_first_ending_behind(
        pattern_matches(pattern, text),
        if seen.is_prefix_of(text) {
            encode_utf8(seen).len()
        } else {
            0
        },
        0,
    );
}

/// The match that is reported on a screen is the first that was not there before; nothing is where
/// all were.
pub proof fn law_the_first_unseen_match_is_found(
    matches: Seq<(int, Seq<char>)>,
    seen: Seq<(int, Seq<char>)>,
    i: int,
)
    requires
        0 <= i <= matches.len(),
    ensures
        match first_unseen(matches, seen, i) {
            Some(found) => exists|k: int|
                i <= k < matches.len() && !seen.contains(#[trigger] matches[k]) && matches[k].1
                    == found && forall|j: int|
                    i <= j < k ==> seen.contains(#[trigger] matches[j]),
            None => forall|j: int| i <= j < matches.len() ==> seen.contains(#[trigger] matches[j]),
        },
    decreases matches.len() - i,
{
    if i < matches.len() {
        if !seen.contains(matches[i]) {
            assert(matches[i].1 == first_unseen(matches, seen, i)->0);
        } else {
            law_the_first_unseen_match_is_found(matches, seen, i + 1);
            if let Some(found) = first_unseen(matches, seen, i + 1) {
                let k = choose|k: int|
                    i + 1 <= k < matches.len() && !seen.contains(#[trigger] matches[k])
                        && matches[k].1 == found && forall|j: int|
                        i + 1 <= j < k ==> seen.contains(#[trigger] matches[j]);
                assert forall|j: int| i <= j < k implies seen.contains(#[trigger] matches[j]) by {}
            }
        }
    }
}

/// Whether a text is among those that were matched.
pub open spec fn matched_among(matches: Seq<(nat, Seq<char>)>, found: Seq<char>) -> bool {
    exists|k: int| 0 <= k < matches.len() && (#[trigger] matches[k]).1 == found
}

proof fn lemma_in_row(row: int, matches: Seq<(nat, Seq<char>)>, at: int, found: Seq<char>)
    ensures
        in_row(row, matches).contains((at, found)) <==> at == row && matched_among(matches, found),
{
    let all = in_row(row, matches);
    if all.contains((at, found)) {
        let k = choose|k: int| 0 <= k < all.len() && all[k] == (at, found);
        assert(matches[k].1 == found);
    }
    if at == row && matched_among(matches, found) {
        let k = choose|k: int| 0 <= k < matches.len() && (#[trigger] matches[k]).1 == found;
        assert(all[k] == (at, found));
    }
}

/// The matches on a screen are those of its rows, each in its row, with the white space at the end of
/// the row and without it.
pub proof fn law_screen_matches_are_those_of_the_rows(
    pattern: Seq<char>,
    lines: Seq<Seq<char>>,
    row: int,
    found: Seq<char>,
)
    ensures
        screen_matches_of(pattern, lines).contains((row, found)) <==> 0 <= row < lines.len() && (
        matched_among(pattern_matches(pattern, lines[row]), found) || matched_among(
            pattern_matches(pattern, trimmed_end(lines[row])),
            found,
        )),
    decreases lines.len(),
{
    if lines.len() > 0 {
        let n = lines.len() - 1;
        let before = screen_matches_of(pattern, lines.drop_last());
        let whole = in_row(n, pattern_matches(pattern, lines.last()));
        let trimmed = in_row(n, pattern_matches(pattern, trimmed_end(lines.last())));
        law_screen_matches_are_those_of_the_rows(pattern, lines.drop_last(), row, found);
        lemma_in_row(n, pattern_matches(pattern, lines.last()), row, found);
        lemma_in_row(n, pattern_matches(pattern, trimmed_end(lines.last())), row, found);
        if 0 <= row < n {
            assert(lines.drop_last()[row] == lines[row]);
        }
        let all = before + whole + trimmed;
        if all.contains((row, found)) {
            let k = choose|k: int| 0 <= k < all.len() && all[k] == (row, found);
            if k < before.len() {
                assert(before[k] == (row, found));
            } else if k < before.len() + whole.len() {
                assert(whole[k - before.len()] == (row, found));
            } else {
                assert(trimmed[k - before.len() - whole.len()] == (row, found));
            }
        }
        if before.contains((row, found)) {
            let k = choose|k: int| 0 <= k < before.len() && before[k] == (row, found);
            assert(all[k] == (row, found));
        }
        if whole.contains((row, found)) {
            let k = choose|k: int| 0 <= k < whole.len() && whole[k] == (row, found);
            assert(all[before.len() + k] == (row, found));
        }
        if trimmed.contains((row, found)) {
            let k = choose|k: int| 0 <= k < trimmed.len() && trimmed[k] == (row, found);
            assert(all[before.len() + whole.len() + k] == (row, found));
        }
    }
}

/// A pattern is looked for from the start of the line that holds the cursor: just behind a line feed,
/// or at the oldest byte that is left, or 4096 bytes back, with no line feed from there up to the
/// cursor; and up to as many bytes behind the cursor as are read, or the end.
pub proof fn law_patterns_are_looked_for_from_the_start_of_the_line(
    buffer: OutputBuffer,
    cursor: u64,
    max: usize,
)
    requires
        buffer.wf(),
        buffer.start() <= cursor < buffer.end(),
    ensures
        ({
            let seen = window_seen(buffer, cursor, max);
            let bytes = window(buffer, cursor, max);
            let from = cursor - seen;
            let to = from + bytes.len();
            &&& 0 <= seen <= 4096
            &&& from >= buffer.start()
            &&& bytes == buffer@.subrange(from - buffer.start(), to - buffer.start())
            &&& to == buffer.end() || to == cursor + max
            &&& to <= buffer.end() && to <= cursor + max
            &&& from == buffer.start() || seen == 4096 || buffer@[from - 1 - buffer.start()]
                == 0x0a
            &&& forall|i: int| from <= i < cursor ==> #[trigger] buffer@[i - buffer.start()] != 0x0a
        }),
{
    lemma_line_start(buffer, cursor);
    let low = clamped(cursor - LINE_LOOKBACK, buffer.start() as int, buffer.end() as int);
    let from = line_start(buffer, cursor);
    let part = buffer@.subrange(low - buffer.start(), cursor - buffer.start());
    if cursor > low {
        crate::reader::lemma_up_to_line_feed(part);
        let kept = up_to_line_feed(part);
        if kept.len() > 0 {
            assert(kept.last() == part[kept.len() - 1]);
            assert(part[kept.len() - 1] == buffer@[from - 1 - buffer.start()]);
        }
        assert forall|i: int| from <= i < cursor implies #[trigger] buffer@[i - buffer.start()]
            != 0x0a by {
            assert(part[i - low] == buffer@[i - buffer.start()]);
        }
    }
}

proof fn lemma_pieces_joined(lines: Seq<Seq<char>>)
    requires
        lines.len() > 0,
        forall|i: int| 0 <= i < lines.len() ==> !(#[trigger] lines[i]).contains('\n'),
    ensures
        pieces(joined(lines, "\n"@)) == lines,
    decreases lines.len(), lines.last().len(),
{
    reveal_strlit("\n");
    assert("\n"@ =~= seq!['\n']);
    let text = joined(lines, "\n"@);
    let line = lines.last();
    if line.len() > 0 {
        let shorter = lines.update(lines.len() - 1, line.drop_last());
        assert(line.last() != '\n') by {
            assert(line[line.len() - 1] == line.last());
            assert(!lines[lines.len() - 1].contains('\n'));
        }
        assert(shorter.last() == line.drop_last());
        assert(shorter.drop_last() =~= lines.drop_last());
        assert forall|i: int| 0 <= i < shorter.len() implies !(#[trigger] shorter[i]).contains(
            '\n',
        ) by {
            assert(!lines[i].contains('\n'));
            if shorter[i].contains('\n') {
                let k = choose|k: int| 0 <= k < shorter[i].len() && shorter[i][k] == '\n';
                assert(lines[i][k] == '\n');
            }
        }
        lemma_pieces_joined(shorter);
        assert(text.drop_last() =~= joined(shorter, "\n"@));
        assert(text.last() == line.last());
        assert(line.drop_last().push(line.last()) =~= line);
        assert(pieces(text) =~= lines);
    } else if lines.len() == 1 {
        assert(lines[0] =~= Seq::<char>::empty());
        assert(pieces(text) =~= lines);
    } else {
        let before = lines.drop_last();
        assert forall|i: int| 0 <= i < before.len() implies !(#[trigger] before[i]).contains(
            '\n',
        ) by {
            assert(before[i] == lines[i]);
        }
        lemma_pieces_joined(before);
        assert(text =~= joined(before, "\n"@).push('\n'));
        assert(text.drop_last() =~= joined(before, "\n"@));
        assert(lines.last() =~= Seq::<char>::empty());
        assert(pieces(text) =~= lines);
    }
}

/// Trimming the lines of a text takes the white space off the end of each of them and keeps them and
/// their order. A line feed at the end is dropped.
pub proof fn law_trimming_lines_trims_each(lines: Seq<Seq<char>>)
    requires
        lines.len() > 0,
        lines.last().len() > 0,
        forall|i: int| 0 <= i < lines.len() ==> !(#[trigger] lines[i]).contains('\n'),
    ensures
        ({
            let trimmed = joined(
                Seq::new(lines.len(), |i: int| trimmed_end(lines[i])),
                "\n"@,
            );
            &&& trimmed_lines(joined(lines, "\n"@)) == trimmed
            &&& trimmed_lines(joined(lines, "\n"@) + "\n"@) == trimmed
        }),
{
    reveal_strlit("\n");
    assert("\n"@ =~= seq!['\n']);
    lemma_pieces_joined(lines);
    let text = joined(lines, "\n"@);
    let ended = text + "\n"@;
    assert(ended.drop_last() =~= text);
    assert(pieces(ended).drop_last() =~= lines);
    assert(lines.map_values(|line: Seq<char>| trimmed_end(line)) =~= Seq::new(
        lines.len(),
        |i: int| trimmed_end(lines[i]),
    ));
}

/// What is on the screen when a wait begins is new while something is unread, and is not while
/// nothing is.
pub proof fn law_what_is_not_new(
    session: Session,
    cursor: u64,
    options: WaitOptions,
    row: int,
    found: Seq<char>,
)
    ensures
        ({
            let known = Waiting::baseline_of(session, cursor, options);
            let lines = screen_lines(session.screen@);
            &&& cursor < session.output.end() || options.until is None ==> known.len() == 0
            &&& cursor >= session.output.end() ==> (options.until matches Some(regex) ==> (
            known.contains((row, found)) <==> 0 <= row < lines.len() && (matched_among(
                pattern_matches(pattern_of(regex), lines[row]),
                found,
            ) || matched_among(
                pattern_matches(pattern_of(regex), trimmed_end(lines[row])),
                found,
            ))))
        }),
{
    if let Some(regex) = options.until {
        law_screen_matches_are_those_of_the_rows(
            pattern_of(regex),
            screen_lines(session.screen@),
            row,
            found,
        );
    }
}

/// Nothing is found without a pattern or without new output. Where the read shows the screen, what
/// is found is on the screen and was not there before, and where it shows text, it is in the text.
pub proof fn law_where_patterns_are_looked_for(
    waiting: Waiting,
    session: Session,
    options: WaitOptions,
)
    ensures
        options.until is None || session.output.end() <= waiting.cursor ==> waiting.found(
            session,
            options,
        ) is None,
        options.until is Some && session.output.end() > waiting.cursor ==> {
            let pattern = pattern_of(options.until->0);
            let screen = waiting.mode is Screen || (waiting.mode is Auto
                && emulated_alternate_screen(session.screen@));
            let matches = screen_matches_of(pattern, screen_lines(session.screen@));
            &&& screen && waiting.found(session, options) is None ==> forall|i: int|
                0 <= i < matches.len() ==> row_texts_of(waiting.baseline@).contains(
                    #[trigger] matches[i],
                )
            &&& screen && waiting.found(session, options) is Some ==> exists|i: int|
                0 <= i < matches.len() && !row_texts_of(waiting.baseline@).contains(
                    #[trigger] matches[i],
                ) && matches[i].1 == waiting.found(session, options)->0
            &&& !screen ==> waiting.found(session, options) == text_match_of(
                pattern,
                session.output,
                waiting.cursor,
                waiting.max,
                session.snapshot.rows,
                session.snapshot.cols,
            )
        },
{
    if options.until is Some {
        let matches = screen_matches_of(
            pattern_of(options.until->0),
            screen_lines(session.screen@),
        );
        law_the_first_unseen_match_is_found(matches, row_texts_of(waiting.baseline@), 0);
    }
}

/// In text, a match beyond what was seen counts, with the white space at the ends of lines before
/// without it; nothing is found only where there is neither.
pub proof fn law_text_is_matched_with_and_without_spaces(
    pattern: Seq<char>,
    buffer: OutputBuffer,
    cursor: u64,
    max: usize,
    rows: u16,
    cols: u16,
)
    ensures
        ({
            let bytes = window(buffer, cursor, max);
            let text = rendered_text(bytes, rows, cols);
            let seen = rendered_text(
                bytes.subrange(0, window_seen(buffer, cursor, max)),
                rows,
                cols,
            );
            let spaced = new_match_of(pattern, text, seen);
            let trimmed = new_match_of(pattern, trimmed_lines(text), trimmed_lines(seen));
            let found = text_match_of(pattern, buffer, cursor, max, rows, cols);
            &&& spaced is Some ==> found == spaced
            &&& spaced is None ==> found == trimmed
        }),
{
    let bytes = window(buffer, cursor, max);
    let n = window_seen(buffer, cursor, max);
    assert(bytes.take(n) =~= bytes.subrange(0, n));
}

/// Only text that a pattern has to be looked for in has to be rendered.
pub proof fn law_what_has_to_be_rendered(waiting: Waiting, session: Session, options: WaitOptions)
    ensures
        options.until is None || session.output.end() <= waiting.cursor || waiting.mode is Screen || (
        waiting.mode is Auto && emulated_alternate_screen(session.screen@)) ==> waiting.renderable(
            session,
            options,
        ),
        waiting.max <= usize::MAX - 4096 && drawn_afresh(
            window(session.output, waiting.cursor, waiting.max),
            session.snapshot.rows,
            session.snapshot.cols,
        ) ==> waiting.renderable(session, options),
{
}

/// The names under which the reasons are reported.
pub proof fn law_names_of_wait_reasons()
    ensures
        WaitReason::Output.spec_name() == "output"@,
        WaitReason::Idle.spec_name() == "idle"@,
        WaitReason::Matched.spec_name() == "matched"@,
        WaitReason::Exited.spec_name() == "exited"@,
        WaitReason::Limit.spec_name() == "limit"@,
        WaitReason::Timeout.spec_name() == "timeout"@,
        WaitReason::Cancelled.spec_name() == "cancelled"@,
{
}

/// A wait begins at the cursor, for as many bytes and in the mode that were asked for, and has as long
/// as was asked; how it goes on is decided by what is then there.
pub proof fn law_how_waits_begin(
    session: &Session,
    cursor: u64,
    max: usize,
    mode: ReadMode,
    options: &WaitOptions,
    now: Nanos,
    waiting: Waiting,
    later_session: &Session,
    at: Nanos,
    step: WaitStep,
)
    requires
        call_ensures(Waiting::begin, (session, cursor, max, mode, options, now), waiting),
        call_ensures(Waiting::evaluate, (&waiting, later_session, options, at), step),
        now + options.timeout <= Nanos::MAX,
    ensures
        waiting.started == now,
        waiting.deadline == now + options.timeout,
        waiting.cursor == cursor && waiting.max == max && waiting.mode == mode,
        cursor < session.output.end() ==> waiting.baseline@.len() == 0,
        waiting.decides(*later_session, *options, at, step),
        at >= now + options.timeout ==> step is Done,
{
    assert(row_texts_of(waiting.baseline@).len() == waiting.baseline@.len());
}

/// A request without a condition does not wait at all, one with a condition for ten seconds, and none
/// for more than thirty. Quiet is waited for as asked, or for five seconds with a pattern.
pub proof fn law_how_long_requests_wait(
    ms: u64,
    idle_ms: Option<u64>,
    until: Option<&str>,
    asked: WaitOptions,
    usual: WaitOptions,
)
    requires
        call_ensures(WaitOptions::from_request, (Some(ms), idle_ms, until), Ok(asked)),
        call_ensures(WaitOptions::from_request, (None::<u64>, idle_ms, until), Ok(usual)),
    ensures
        asked.timeout <= 30_000_000_000,
        ms <= 30_000 ==> asked.timeout == ms * 1_000_000,
        ms > 30_000 ==> asked.timeout == 30_000_000_000,
        idle_ms is None && until is None ==> usual.timeout == 0 && usual.idle is None,
        idle_ms is Some || until is Some ==> usual.timeout == 10_000_000_000,
        usual.idle == asked.idle,
        idle_ms == Some(0u64) ==> usual.idle is None,
        idle_ms is None && until is Some ==> usual.idle == Some(5_000_000_000u64),
        idle_ms matches Some(quiet) ==> 0 < quiet <= 1_000_000_000 ==> usual.idle == Some(
            (quiet * 1_000_000) as u64,
        ),
        usual.until is Some <==> until is Some,
        until matches Some(pattern) ==> pattern_of(usual.until->0) == pattern@,
{
}

/// A wait is looked at where the text that it has to look at can be rendered. While output streams it
/// is looked at again 25 milliseconds later, or at its deadline.
pub proof fn law_when_waits_are_looked_at(
    waiting: &Waiting,
    session: &Session,
    options: &WaitOptions,
    now: Nanos,
    r: Option<WaitStep>,
    until: Nanos,
    reason: WaitReason,
    matched: Option<String>,
    outcome: WaitOutcome,
)
    requires
        call_ensures(Waiting::try_evaluate, (waiting, session, options, now), r),
        call_ensures(Waiting::batch_until, (waiting, now), until),
        call_ensures(Waiting::done, (waiting, reason, matched, now), outcome),
        now + 25_000_000 <= Nanos::MAX,
    ensures
        r is Some <==> waiting.renderable(*session, *options),
        r matches Some(step) ==> waiting.decides(*session, *options, now, step),
        until == (if now + 25_000_000 < waiting.deadline {
            now + 25_000_000
        } else {
            waiting.deadline as int
        }),
        outcome.reason == reason && outcome.matched == matched,
        now >= waiting.started ==> outcome.waited_ms == (now - waiting.started) / 1_000_000,
{
}

/// What is found in text, how lines are trimmed and what is found on a screen are what a match is made
/// of.
pub proof fn law_how_matches_are_made(
    buffer: &OutputBuffer,
    cursor: u64,
    max: usize,
    rows: u16,
    cols: u16,
    regex: &regex::Regex,
    found: Option<String>,
    text: &str,
    trimmed: String,
    lines: &Vec<String>,
    matches: Vec<(usize, String)>,
)
    requires
        call_ensures(text_match, (buffer, cursor, max, rows, cols, regex), found),
        call_ensures(trim_lines, (text,), trimmed),
        call_ensures(screen_matches, (regex, lines), matches),
    ensures
        found is Some <==> text_match_of(pattern_of(*regex), *buffer, cursor, max, rows, cols)
            is Some,
        found matches Some(words) ==> text_match_of(
            pattern_of(*regex),
            *buffer,
            cursor,
            max,
            rows,
            cols,
        ) == Some(words@),
        trimmed@ == trimmed_lines(text@),
        row_texts_of(matches@) == screen_matches_of(pattern_of(*regex), texts(lines@)),
{
}

} // verus!
