use next::input::Keys;
use next::terminal::{Mode, Terminal};

fn frame_of(t: &Terminal) -> String {
    t.term_buf.iter().collect()
}

#[test]
fn one_row_window_composes_the_exact_frame() {
    // five columns, one visible text row
    let mut t = Terminal::new(5, 3);
    t.open_empty_editor();
    t.refresh_screen();
    let mut expected = String::new();
    expected.push_str("\x1b[?25l\x1b[H");
    expected.push_str("~Next Version 1.1\x1b[K\r\n");
    expected.push_str("\x1b[7m [No Name]- 0 lines0,0 \x1b[m\r\n");
    expected.push_str("\x1b[K:help Ctrl+Q to quit");
    expected.push_str("\x1b[1;1H\x1b[?25h");
    assert_eq!(frame_of(&t), expected);
}

#[test]
fn scrolling_down_keeps_the_cursor_visible() {
    // three visible text rows
    let mut t = Terminal::new(10, 5);
    t.open_editor("f.txt".to_string(), "l0\nl1\nl2\nl3\nl4");
    for _ in 0..4 {
        t.handle_input(Keys::Down);
    }
    t.refresh_screen();
    assert_eq!(t.rowoffset, 2);
    assert!(t.rowoffset <= t.cursor.row);
    assert!(t.cursor.row < t.rowoffset + t.size.1 as usize);
    // the cursor is repositioned relative to the scrolled window
    assert!(frame_of(&t).ends_with("\x1b[3;1H\x1b[?25h"));
}

#[test]
fn scrolling_right_keeps_the_cursor_visible() {
    // ten visible columns
    let mut t = Terminal::new(10, 5);
    t.open_empty_editor();
    t.handle_input(Keys::Char('i'));
    for c in "abcdefghijkl".chars() {
        t.handle_input(Keys::Char(c));
    }
    assert_eq!(t.cursor.col, 12);
    t.refresh_screen();
    assert_eq!(t.coloffset, 3);
    assert!(t.coloffset <= t.cursor.col);
    assert!(t.cursor.col < t.coloffset + t.size.0 as usize);
    // only the visible column window of the line is drawn
    assert!(frame_of(&t).contains("defghijkl\x1b[K"));
    assert!(!frame_of(&t).contains("abc"));
}

#[test]
fn scrolling_up_snaps_the_offset_to_the_cursor() {
    let mut t = Terminal::new(10, 5);
    t.open_editor("f.txt".to_string(), "l0\nl1\nl2\nl3\nl4");
    for _ in 0..4 {
        t.handle_input(Keys::Down);
    }
    t.refresh_screen();
    assert_eq!(t.rowoffset, 2);
    for _ in 0..4 {
        t.handle_input(Keys::Up);
    }
    t.refresh_screen();
    assert_eq!(t.rowoffset, 0);
    assert!(t.rowoffset <= t.cursor.row);
    assert!(t.cursor.row < t.rowoffset + t.size.1 as usize);
}

#[test]
fn cursor_row_shows_raw_text_while_editing() {
    let mut t = Terminal::new(40, 10);
    t.open_editor("f.txt".to_string(), "# T");
    t.refresh_screen();
    // Normal mode shows the decorated cache
    assert!(frame_of(&t).contains("\x1b[1;31mT\x1b[0m"));
    t.handle_input(Keys::Char('i'));
    assert_eq!(t.mode, Mode::Insert);
    t.refresh_screen();
    // editing shows the raw text on the cursor's row
    assert!(frame_of(&t).contains("# T\x1b[K"));
    assert!(!frame_of(&t).contains("\x1b[1;31m"));
}

#[test]
fn status_bar_shows_filename_modified_marker_and_cursor() {
    let mut t = Terminal::new(60, 10);
    t.open_editor("f.txt".to_string(), "ab\ncd");
    t.refresh_screen();
    assert!(frame_of(&t).contains(" f.txt- 2 lines"));
    assert!(!frame_of(&t).contains("(modified)"));
    t.handle_input(Keys::Down);
    t.handle_input(Keys::Right);
    t.handle_input(Keys::Char('i'));
    t.handle_input(Keys::Char('x'));
    t.refresh_screen();
    assert!(frame_of(&t).contains(" f.txt (modified) - 2 lines"));
    assert!(frame_of(&t).contains("1,2 \x1b[m"));
}

#[test]
fn rows_past_the_document_show_the_fill_character() {
    let mut t = Terminal::new(20, 6);
    t.open_editor("f.txt".to_string(), "only");
    t.refresh_screen();
    let f = frame_of(&t);
    // four visible rows: one content row and three fill rows
    assert_eq!(f.matches("~\x1b[K\r\n").count(), 3);
    assert!(f.contains("only\x1b[K\r\n"));
    // a non-empty document shows no version banner
    assert!(!f.contains("Next Version"));
}
