use pty_bridge::render::{
    collapse_blank_runs, drop_trailing_empty, finish, layout_text, render_text, snapshot,
    CursorPosition, Highlight, TEXT_SCROLLBACK,
};
use pty_bridge::screen::{is_drawn_afresh, Screen};

#[test]
fn line_editor_redraws_collapse_to_final_text() {
    // Shape of the Python REPL echo: redraw the prompt and input after every key.
    let bytes = b"\x1b[1;35m>>> \x1b[0m\x1b[4D\x1b[4C\x1b[4D\x1b[1;35m>>> \x1b[0mp\x1b[5D\
\x1b[1;35m>>> \x1b[0mpr\x1b[6D\x1b[1;35m>>> \x1b[0mprint(1)\x1b[12D\r\n\x1b[?2004lhi\r\n2\r\n>>> ";
    let (text, dropped) = render_text(bytes, 24, 80);
    assert_eq!(text, ">>> print(1)\nhi\n2\n>>> ");
    assert!(!dropped);
}

#[test]
fn scrollback_is_kept_in_order_and_wrapped_rows_are_joined() {
    let mut bytes = Vec::new();
    for i in 0..50 {
        bytes.extend_from_slice(format!("line {i}\r\n").as_bytes());
    }
    bytes.extend_from_slice(&[b'x'; 25]);
    let (text, dropped) = render_text(&bytes, 5, 10);
    let lines: Vec<_> = text.lines().collect();
    assert_eq!(lines.len(), 51);
    assert_eq!(lines[0], "line 0");
    assert_eq!(lines[49], "line 49");
    assert_eq!(lines[50], "x".repeat(25));
    assert!(!dropped);
}

#[test]
fn long_blank_runs_collapse_but_paragraph_breaks_stay() {
    let (text, _) = render_text(b"a\r\n\r\nb\r\n\r\n\r\n\r\n\r\nc\r\n", 24, 80);
    assert_eq!(text, "a\n\nb\n\nc");
}

#[test]
fn reports_rows_beyond_scrollback() {
    let bytes = "y\r\n".repeat(TEXT_SCROLLBACK + 100);
    let (text, dropped) = render_text(bytes.as_bytes(), 24, 80);
    assert!(dropped);
    assert!(text.lines().count() <= TEXT_SCROLLBACK + 24);
}

#[test]
fn screen_reports_cursor_alternate_screen_and_inverse_runs() {
    let mut parser = Screen::new(5, 20, 0);
    parser.process(b"\x1b[?1049h\x1b[?1h\x1b[2;3H\x1b[7m[OK]\x1b[0m done\x1b[3;1H");
    let screen = snapshot(&parser, 42);
    assert!(screen.alternate_screen);
    assert!(screen.application_cursor);
    assert_eq!(screen.lines, vec!["", "  [OK] done"]);
    assert_eq!(screen.cursor, CursorPosition { row: 2, col: 0 });
    assert_eq!(
        screen.highlights,
        vec![Highlight {
            row: 1,
            col: 2,
            len: 4
        }]
    );
    assert_eq!(screen.end_cursor, 42);
}

#[test]
fn highlights_at_the_edges_are_complete() {
    let mut parser = Screen::new(3, 6, 0);
    parser.process(b"\x1b[7mabcdef\r\n\x1b[0mx\x1b[7myz\x1b[0m q\x1b[7mr");
    let screen = snapshot(&parser, 0);
    assert_eq!(
        screen.highlights,
        vec![
            Highlight { row: 0, col: 0, len: 6 },
            Highlight { row: 1, col: 1, len: 2 },
            Highlight { row: 1, col: 5, len: 1 },
        ]
    );
    assert!(screen.cursor_visible);
    assert_eq!((screen.rows, screen.cols), (3, 6));
}

#[test]
fn spaces_before_the_cursor_are_kept() {
    let mut parser = Screen::new(3, 20, 0);
    parser.process(b"done   \r\n$ ");
    let screen = snapshot(&parser, 0);
    assert_eq!(screen.lines, vec!["done", "$ "]);
    assert_eq!(screen.cursor, CursorPosition { row: 1, col: 2 });
}

#[test]
fn collapsing_keeps_every_line_with_text() {
    let lines: Vec<String> = ["", "a", "", "", "b", "", "", "", "", "c", ""]
        .iter()
        .map(|line| line.to_string())
        .collect();
    let compact = collapse_blank_runs(lines);
    assert_eq!(compact, vec!["", "a", "", "", "b", "", "c", ""]);
    assert_eq!(collapse_blank_runs(compact.clone()), compact);
}

#[test]
fn trailing_empty_lines_are_dropped() {
    let mut lines: Vec<String> = vec!["a".into(), "".into(), "b".into(), "".into(), "".into()];
    drop_trailing_empty(&mut lines);
    assert_eq!(lines, vec!["a", "", "b"]);
    let mut line = String::from("x  ");
    assert_eq!(finish(&mut line, false), "x");
    assert_eq!(line, "");
    let mut line = String::from("x  ");
    assert_eq!(finish(&mut line, true), "x  ");
}

#[test]
fn wrapped_rows_are_laid_out_as_one_line() {
    let rows: Vec<(String, bool)> = vec![
        ("abc".into(), true),
        ("def  ".into(), false),
        ("$ ".into(), false),
        ("".into(), false),
    ];
    assert_eq!(layout_text(&rows, 2), "abcdef\n$ ");
    assert_eq!(layout_text(&rows, 0), "abcdef  \n$");
    let open: Vec<(String, bool)> = vec![("abc".into(), true), ("d ".into(), true)];
    assert_eq!(layout_text(&open, 9), "abcd");
}

#[test]
fn a_terminal_without_columns_renders_in_one() {
    assert_eq!(render_text(b"ab", 5, 0).0, "ab");
}

#[test]
fn runs_of_empty_lines_at_the_end_become_one_too() {
    let lines: Vec<String> = ["a", "", "", ""].iter().map(|line| line.to_string()).collect();
    assert_eq!(collapse_blank_runs(lines), vec!["a", ""]);
    let lines: Vec<String> = vec![String::new(); 5];
    assert_eq!(collapse_blank_runs(lines), vec![""]);
}

#[test]
fn rows_up_to_the_scrollback_are_all_kept() {
    let bytes = "y\r\n".repeat(TEXT_SCROLLBACK + 23);
    let (text, dropped) = render_text(bytes.as_bytes(), 24, 80);
    assert_eq!(text, vec!["y"; TEXT_SCROLLBACK + 23].join("\n"));
    assert!(!dropped);
    let bytes = format!("x\r\n{}", bytes);
    let (text, dropped) = render_text(bytes.as_bytes(), 24, 80);
    assert_eq!(text, vec!["y"; TEXT_SCROLLBACK + 23].join("\n"));
    assert!(dropped);
}

#[test]
fn single_rows_show_lines_that_fit() {
    let bytes = b"one\r\n\x1b[1mtwo\x1b[m\r\nthree";
    assert!(is_drawn_afresh(bytes, 1, 5));
    assert_eq!(render_text(bytes, 1, 5), ("one\ntwo\nthree".to_string(), false));
    assert!(!is_drawn_afresh(bytes, 1, 4));
    assert!(is_drawn_afresh(bytes, 2, 4));
    assert_eq!(render_text(bytes, 2, 4), ("one\ntwo\nthree".to_string(), false));
    assert!(is_drawn_afresh(bytes, 0, 5));
    assert_eq!(render_text(bytes, 0, 5), ("one\ntwo\nthree".to_string(), false));
}
