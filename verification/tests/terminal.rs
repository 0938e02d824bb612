use pty_bridge::screen::Screen;
use pty_bridge::terminal::{Chunk, Query, TerminalProtocol};

#[test]
fn queries_split_visible_output_in_order_across_reads() {
    let mut protocol = TerminalProtocol::default();
    assert_eq!(
        protocol.process(b"ab\x1b[6ncd\x1b["),
        vec![
            Chunk::Visible(b"ab".to_vec()),
            Chunk::Query(Query::CursorPosition),
            Chunk::Visible(b"cd".to_vec()),
        ]
    );
    assert_eq!(
        protocol.process(b"c\x1b[1m"),
        vec![
            Chunk::Query(Query::PrimaryAttributes),
            Chunk::Visible(b"\x1b[1m".to_vec()),
        ]
    );
    assert!(protocol.finish().is_empty());
}

#[test]
fn cursor_answers_reflect_the_screen() {
    let mut screen = Screen::new(24, 80, 0);
    screen.process(b"\r\n\r\nabc");
    assert_eq!(Query::CursorPosition.answer(&screen), b"\x1b[3;4R");
    assert_eq!(Query::ExtendedCursorPosition.answer(&screen), b"\x1b[?3;4R");
}

#[test]
fn other_queries_have_fixed_answers() {
    let screen = Screen::new(24, 80, 0);
    assert_eq!(Query::Status.answer(&screen), b"\x1b[0n");
    assert_eq!(Query::PrimaryAttributes.answer(&screen), b"\x1b[?1;2c");
    assert_eq!(
        Query::CursorPosition.answer_at(65535, 65535),
        b"\x1b[65536;65536R"
    );
}

#[test]
fn reads_of_one_byte_find_the_same_queries() {
    let stream = b"x\x1b[5ny\x1b[?6n\x1b[0cz\x1b[31m";
    let mut whole = TerminalProtocol::default();
    let expected = whole.process(stream);
    let mut single = TerminalProtocol::default();
    let mut visible: Vec<u8> = Vec::new();
    let mut queries: Vec<Query> = Vec::new();
    for byte in stream {
        for chunk in single.process(&[*byte]) {
            match chunk {
                Chunk::Visible(bytes) => visible.extend(bytes),
                Chunk::Query(query) => queries.push(query),
            }
        }
    }
    let mut expected_visible: Vec<u8> = Vec::new();
    let mut expected_queries: Vec<Query> = Vec::new();
    for chunk in expected {
        match chunk {
            Chunk::Visible(bytes) => expected_visible.extend(bytes),
            Chunk::Query(query) => expected_queries.push(query),
        }
    }
    assert_eq!(visible, expected_visible);
    assert_eq!(visible, b"xyz\x1b[31m");
    assert_eq!(queries, expected_queries);
    assert_eq!(
        queries,
        vec![
            Query::Status,
            Query::ExtendedCursorPosition,
            Query::PrimaryAttributes
        ]
    );
}

#[test]
fn an_unfinished_query_is_output_in_the_end() {
    let mut protocol = TerminalProtocol::default();
    assert_eq!(protocol.process(b"ok\x1b["), vec![Chunk::Visible(b"ok".to_vec())]);
    assert_eq!(protocol.finish(), b"\x1b[");
}

#[test]
fn characters_cut_in_half_are_not_drawn_over() {
    let mut screen = Screen::new(5, 10, 0);
    assert!(screen.process("你好\r\n\r\n".as_bytes()));
    // Four columns hold both characters, three cut the second in half.
    screen.resize(5, 4);
    assert!(screen.process(b"x"));
    assert_eq!(screen.lines()[0], "你好");
    screen.resize(5, 3);
    // Elsewhere on the screen drawing goes on.
    assert!(screen.process(b"yz\r\nabcd\x1b[K"));
    assert_eq!(screen.lines()[2], "xyz");
    // So it does in the row with the half, up to the half.
    assert!(screen.process(b"\x1b[1;1H\x1b[1;31mc\x1b[1K\rab"));
    assert_eq!(screen.lines()[0], "ab好");
    assert!(!screen.process(b"d"));
    assert_eq!(screen.cursor_position(), (0, 2));
    assert!(!screen.process(b"\x1b[K"));
    screen.resize(5, 10);
    // The sequence that was not finished is broken off.
    assert!(screen.process(b"\x18cd\x1b[K"));
    assert_eq!(screen.lines()[0], "abcd");
}

/// A screen of three columns whose first row holds `a`, `b` and half a character.
fn halved() -> Screen {
    let mut screen = Screen::new(3, 4, 0);
    assert!(screen.process("ab你\r".as_bytes()));
    screen.resize(3, 3);
    screen
}

#[test]
fn only_what_touches_a_half_is_refused() {
    // Deleting, erasing and inserting before the half.
    let mut screen = halved();
    assert!(screen.process(b"\x1b[P"));
    assert_eq!(screen.lines()[0], "b你");
    assert!(screen.process(b"x\x1b[1;1H\x1b[K"));
    let mut screen = halved();
    assert!(screen.process(b"\x1b[2P"));
    assert_eq!(screen.lines()[0], "你");
    for taken in [
        "\x1b[X", "\x1b[2X", "\x1b[1K", "\x1b[?1K", "\x1b[2K", "\x1b[3J", "\x1b[3K", "\x1b[02J", "\x1b[@",
        "\x1b[>K", "\x1b[1$K", "\x1b[?9P", "\x1b[1?K", "e\u{301}", "\n\u{4f60}x",
    ] {
        assert!(halved().process(taken.as_bytes()), "{taken:?}");
    }
    for refused in [
        "\x1b[K", "\x1b[0K", "\x1b[J", "\x1b[?K", "\x1b[;1K", "\x1b[3X", "\x1b[999999X", "\x1b[3P",
        "\x1b[2C\x1b[1K", "abc", "a\u{4f60}",
    ] {
        assert!(!halved().process(refused.as_bytes()), "{refused:?}");
    }
}

#[test]
fn rows_that_scroll_away_take_their_halves_along() {
    let mut screen = Screen::new(2, 3, 0);
    assert!(screen.process("\r\na你".as_bytes()));
    screen.resize(2, 2);
    assert_eq!(screen.cursor_position(), (1, 1));
    assert!(!screen.process(b"x"));
    assert!(screen.process(b"\n\rxyz"));
    assert_eq!(screen.lines(), vec!["xy", "z"]);
}

#[test]
fn characters_are_put_together_across_pieces() {
    let mut screen = Screen::new(1, 4, 0);
    assert!(screen.process(b"\xc3"));
    assert!(screen.process(b"\xa9\xe4\xbd"));
    // A stray byte draws nothing, not even on a full row.
    assert!(screen.process(b"\xa0x\x80\x80"));
    assert_eq!(screen.lines(), vec!["é你x"]);
    assert!(!screen.process(b"y"));
    // So does a string, up to its own end.
    let mut screen = Screen::new(1, 2, 0);
    assert!(screen.process(b"ab\x1bP1$qdata\xe4\x9c\xb8\x1b\\\x1b_x\x1b\\"));
    assert_eq!(screen.lines(), vec!["ab"]);
    assert!(screen.process(b"\x1bP1?q\x9cdata"));
    assert!(screen.process(b"\x18\ra\x1bPq\x9cb"));
    assert!(!screen.process(b"c"));
}

#[test]
fn cleared_halves_are_forgotten() {
    let mut screen = Screen::new(6, 10, 0);
    assert!(screen.process("你好\r\n\r\n".as_bytes()));
    screen.resize(6, 3);
    assert!(screen.process(b"\x1b[2J"));
    assert!(screen.process(b"\x1b[Hab"));
    assert_eq!(screen.lines()[0], "ab");
}

#[test]
fn characters_on_the_hidden_screen_are_cut_too() {
    let mut screen = Screen::new(5, 10, 0);
    assert!(screen.process("ab你\x1b[?1049h\x1b[4;1H".as_bytes()));
    assert!(screen.alternate_screen());
    screen.resize(5, 3);
    assert!(screen.process(b"x"));
    assert!(screen.alternate_screen());
    assert!(!screen.process(b"\x1b[?1049ly"));
    assert!(!screen.alternate_screen());
}

#[test]
fn single_rows_are_drawn_on_until_a_line_wraps() {
    let mut screen = Screen::new(1, 10, 0);
    assert!(screen.process(b"\x1b[1mone\x1b[m\tto\r\nthree\x1b[5Gx"));
    assert_eq!(screen.lines(), vec!["threx"]);
    assert!(screen.process("é—…你".as_bytes()));
    assert_eq!(screen.cursor_position(), (0, 10));
    assert!(!screen.process(b"x"));
    assert!(screen.process(b"\r0123456789\x1b[1;31m\x1b[K\x1b]0;title\x07\x1b(B\x7f"));
    assert!(screen.process(b"\r\n"));
    screen.resize(1, 5);
    assert!(screen.process(b"ab"));
    assert!(screen.process("c你".as_bytes()));
    assert!(!screen.process("你".as_bytes()));
}

#[test]
fn narrow_screens_draw_what_fits() {
    let mut pair = Screen::new(24, 2, 0);
    assert!(pair.process("—你é".as_bytes()));
    assert!(!pair.process("\u{17d8}".as_bytes()));
    let mut narrow = Screen::new(4, 1, 0);
    assert!(narrow.process("x—".as_bytes()));
    assert!(!narrow.process("你".as_bytes()));
    let mut wide = Screen::new(2, 65535, 0);
    assert!(wide.process(b"\tx"));
    assert!(wide.process(b"\x1b[65535G"));
    assert!(!wide.process(b"\t"));
}

#[test]
fn screens_follow_output_and_sizes() {
    let mut screen = Screen::new(3, 8, 0);
    assert!(screen.cursor_visible());
    screen.process(b"ab\x1b[?25l\x1b[?1h\r\ncd");
    assert_eq!(screen.lines(), vec!["ab", "cd", ""]);
    assert_eq!(screen.cursor_position(), (1, 2));
    assert!(!screen.cursor_visible());
    assert!(screen.application_cursor());
    assert!(!screen.alternate_screen());
    screen.resize(2, 20);
    assert_eq!(screen.size(), (2, 20));
    screen.process(b"\x1b[?1049h\x1b[H\x1b[7mz");
    assert!(screen.alternate_screen());
    assert!(screen.inverse(0, 0));
    assert!(!screen.inverse(0, 1));
}

#[test]
fn narrow_screens_wrap_every_character() {
    let mut screen = Screen::new(4, 1, 0);
    screen.process(b"abc");
    assert_eq!(screen.lines(), vec!["a", "b", "c", ""]);
}

#[test]
fn a_stream_is_given_back_however_it_was_cut() {
    let stream = b"a\x1b[5nb\x1b[c\x1b[0c\x1b[31m\x1b[?6n\x1b[6n\x1b[?";
    for size in 1..=stream.len() {
        let mut protocol = TerminalProtocol::default();
        let mut written: Vec<u8> = Vec::new();
        let mut attributes = 0;
        for read in stream.chunks(size) {
            for chunk in protocol.process(read) {
                match chunk {
                    Chunk::Visible(bytes) => written.extend(bytes),
                    Chunk::Query(Query::Status) => written.extend(b"\x1b[5n"),
                    Chunk::Query(Query::CursorPosition) => written.extend(b"\x1b[6n"),
                    Chunk::Query(Query::ExtendedCursorPosition) => written.extend(b"\x1b[?6n"),
                    Chunk::Query(Query::PrimaryAttributes) => {
                        attributes += 1;
                        written.extend(if attributes == 1 { &b"\x1b[c"[..] } else { b"\x1b[0c" });
                    }
                }
            }
        }
        let left = protocol.finish();
        assert_eq!(left, b"\x1b[?");
        written.extend(left);
        assert_eq!(written, stream);
    }
}

/// Pieces of output that draw, erase, move and cut in every way.
const PIECES: [&str; 52] = [
    "a", "b c", "\u{4f60}", "\u{4f60}\u{597d}", "e\u{301}", "\u{301}", "\u{2014}", "\u{17d8}", "\u{1f600}",
    "\r", "\n", "\r\n", "\t", "\u{8}", "\u{7f}", "\u{9b}", "\x1b[K", "\x1b[1K", "\x1b[2K", "\x1b[J",
    "\x1b[1J", "\x1b[2J", "\x1b[?K", "\x1b[0;1K", "\x1b[X", "\x1b[3X", "\x1b[P", "\x1b[2P", "\x1b[9P",
    "\x1b[@", "\x1b[2@", "\x1b[L", "\x1b[M", "\x1b[S", "\x1b[T", "\x1bM", "\x1b7", "\x1b8",
    "\x1b[1;1H", "\x1b[9;9H", "\x1b[2;3r", "\x1b[?1049h", "\x1b[?47l", "\x1b]0;t\u{4f60}\x07",
    "\x1b[?1K", "\x1b[3J", "\x1b[4X", "\x1b[3P", "\x1bPq\u{41c}", "\x1b\\", "\u{e9}", "\u{e9}\x1b\u{e9}[K",
];

#[test]
fn output_is_drawn_or_refused_but_breaks_nothing() {
    let mut seed: u64 = 7;
    let mut next = |n: u64| {
        seed = seed.wrapping_mul(6364136223846793005).wrapping_add(1442695040888963407);
        (seed >> 33) % n
    };
    let mut refused = 0;
    for _ in 0..4000 {
        let mut screen = Screen::new(1 + next(4) as u16, 1 + next(5) as u16, 3);
        for _ in 0..60 {
            if next(6) == 0 {
                screen.resize(1 + next(4) as u16, 1 + next(5) as u16);
            }
            let piece = PIECES[next(PIECES.len() as u64) as usize].as_bytes();
            let cut = next(piece.len() as u64 + 1) as usize;
            let output = match next(6) {
                0 => &piece[..cut],
                1 => &piece[cut..],
                _ => piece,
            };
            if !screen.process(output) {
                refused += 1;
                // What was refused is given up, and the screen is cleared of any halves.
                screen.process(b"\x18\x1b[2J\x1b[1;1H");
            }
        }
        assert_eq!(screen.lines().len(), screen.size().0 as usize);
    }
    assert!(refused > 0);
}
