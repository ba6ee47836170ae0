use next::input::Keys;
use next::terminal::{Action, Cursor, Mode, Terminal};

fn chars(s: &str) -> Vec<char> {
    s.chars().collect()
}

fn string_of(v: &[char]) -> String {
    v.iter().collect()
}

fn doc_of(t: &Terminal) -> Vec<String> {
    t.rows.iter().map(|l| string_of(&l.raw)).collect()
}

fn type_str(t: &mut Terminal, s: &str) {
    for c in s.chars() {
        t.handle_input(Keys::Char(c));
    }
}

#[test]
fn new_editor_starts_empty_in_normal_mode() {
    let t = Terminal::new(80, 24);
    assert_eq!(t.num_rows, 0);
    assert_eq!(t.rows.len(), 0);
    assert_eq!(t.mode, Mode::Normal);
    assert_eq!(t.dirty, 0);
    assert_eq!(t.cursor, Cursor { row: 0, col: 0 });
    assert_eq!(string_of(&t.status), ":help Ctrl+Q to quit");
    assert!(t.filename.is_none());
    assert_eq!(t.size, (80, 22));
}

#[test]
fn open_editor_splits_text_into_lines() {
    let mut t = Terminal::new(80, 24);
    t.open_editor("f.txt".to_string(), "ab\ncd");
    assert_eq!(doc_of(&t), vec!["ab".to_string(), "cd".to_string()]);
    assert_eq!(t.num_rows, 2);
    assert_eq!(string_of(t.filename.as_ref().unwrap()), "f.txt");
    assert_eq!(t.dirty, 0);
}

#[test]
fn open_editor_trailing_newline_closes_last_line() {
    let mut t = Terminal::new(80, 24);
    t.open_editor("f.txt".to_string(), "ab\ncd\n");
    assert_eq!(doc_of(&t), vec!["ab".to_string(), "cd".to_string()]);
    let mut e = Terminal::new(80, 24);
    e.open_editor("f.txt".to_string(), "");
    assert_eq!(e.num_rows, 0);
}

#[test]
fn open_editor_reads_crlf_line_terminators() {
    let mut t = Terminal::new(80, 24);
    t.open_editor("f.txt".to_string(), "ab\r\ncd\r\n");
    assert_eq!(doc_of(&t), vec!["ab".to_string(), "cd".to_string()]);
    // a carriage return is shed only as part of a line terminator
    let mut u = Terminal::new(80, 24);
    u.open_editor("f.txt".to_string(), "ab\r");
    assert_eq!(doc_of(&u), vec!["ab\r".to_string()]);
}

#[test]
fn serialize_joins_lines_without_trailing_newline() {
    let mut t = Terminal::new(80, 24);
    t.append_line("ab".to_string());
    t.append_line("cd".to_string());
    assert_eq!(t.convert_rows_to_str(), "ab\ncd");
}

#[test]
fn save_then_reload_round_trip() {
    let mut t = Terminal::new(80, 24);
    t.open_editor("f.txt".to_string(), "one\n\nthree");
    let saved = t.convert_rows_to_str();
    let mut u = Terminal::new(80, 24);
    u.open_editor("f.txt".to_string(), &saved);
    assert_eq!(doc_of(&t), doc_of(&u));
}

#[test]
fn right_at_end_of_line_wraps_to_next_line_start() {
    let mut t = Terminal::new(80, 24);
    t.open_editor("f.txt".to_string(), "ab\ncd");
    t.handle_input(Keys::Right);
    t.handle_input(Keys::Right);
    assert_eq!((t.cursor.row, t.cursor.col), (0, 2));
    t.handle_input(Keys::Right);
    assert_eq!((t.cursor.row, t.cursor.col), (1, 0));
}

#[test]
fn left_at_line_start_wraps_to_previous_line_end() {
    let mut t = Terminal::new(80, 24);
    t.open_editor("f.txt".to_string(), "ab\ncd");
    t.handle_input(Keys::Down);
    assert_eq!((t.cursor.row, t.cursor.col), (1, 0));
    t.handle_input(Keys::Left);
    assert_eq!((t.cursor.row, t.cursor.col), (0, 2));
}

#[test]
fn vertical_motion_clamps_column_to_line_length() {
    let mut t = Terminal::new(80, 24);
    t.open_editor("f.txt".to_string(), "abcd\nx\nefgh");
    t.handle_input(Keys::End);
    assert_eq!((t.cursor.row, t.cursor.col), (0, 4));
    t.handle_input(Keys::Down);
    assert_eq!((t.cursor.row, t.cursor.col), (1, 1));
    t.handle_input(Keys::Down);
    assert_eq!((t.cursor.row, t.cursor.col), (2, 1));
}

#[test]
fn motion_keeps_cursor_within_bounds() {
    let mut t = Terminal::new(10, 5);
    t.open_editor("f.txt".to_string(), "abc\n\nlonger line\nx");
    let keys = [
        Keys::Up,
        Keys::Left,
        Keys::Down,
        Keys::Down,
        Keys::End,
        Keys::Right,
        Keys::Right,
        Keys::PageDown,
        Keys::Down,
        Keys::Home,
        Keys::Left,
        Keys::PageUp,
        Keys::Up,
        Keys::End,
        Keys::Right,
    ];
    for k in keys {
        t.handle_input(k);
        assert!(t.cursor.row < t.num_rows);
        assert!(t.cursor.col <= t.rows[t.cursor.row].raw.len());
    }
}

#[test]
fn hjkl_move_like_the_arrows() {
    let mut t = Terminal::new(80, 24);
    t.open_editor("f.txt".to_string(), "ab\ncd");
    t.handle_input(Keys::Char('l'));
    assert_eq!((t.cursor.row, t.cursor.col), (0, 1));
    t.handle_input(Keys::Char('j'));
    assert_eq!((t.cursor.row, t.cursor.col), (1, 1));
    t.handle_input(Keys::Char('h'));
    assert_eq!((t.cursor.row, t.cursor.col), (1, 0));
    t.handle_input(Keys::Char('k'));
    assert_eq!((t.cursor.row, t.cursor.col), (0, 0));
}

#[test]
fn insert_mode_types_text() {
    let mut t = Terminal::new(80, 24);
    t.open_empty_editor();
    t.handle_input(Keys::Char('i'));
    assert_eq!(t.mode, Mode::Insert);
    assert_eq!(string_of(&t.status), "-- INSERT --");
    assert_eq!(t.num_rows, 1);
    type_str(&mut t, "Hello");
    assert_eq!(doc_of(&t), vec!["Hello".to_string()]);
    assert_eq!((t.cursor.row, t.cursor.col), (0, 5));
    assert!(t.dirty > 0);
    t.handle_input(Keys::Esc);
    assert_eq!(t.mode, Mode::Normal);
    assert_eq!(string_of(&t.status), "-- NORMAL --");
}

#[test]
fn insert_then_backspace_restores_line() {
    let mut t = Terminal::new(80, 24);
    t.open_editor("f.txt".to_string(), "abc");
    t.handle_input(Keys::Right);
    t.handle_input(Keys::Char('i'));
    t.handle_input(Keys::Char('X'));
    assert_eq!(doc_of(&t), vec!["aXbc".to_string()]);
    assert_eq!((t.cursor.row, t.cursor.col), (0, 2));
    t.handle_input(Keys::BackSpace);
    assert_eq!(doc_of(&t), vec!["abc".to_string()]);
    assert_eq!((t.cursor.row, t.cursor.col), (0, 1));
}

#[test]
fn backspace_at_line_start_joins_lines() {
    let mut t = Terminal::new(80, 24);
    t.open_editor("f.txt".to_string(), "ab\ncd");
    t.handle_input(Keys::Down);
    t.handle_input(Keys::Char('i'));
    assert_eq!((t.cursor.row, t.cursor.col), (1, 0));
    t.handle_input(Keys::BackSpace);
    assert_eq!(doc_of(&t), vec!["abcd".to_string()]);
    assert_eq!((t.cursor.row, t.cursor.col), (0, 2));
}

#[test]
fn backspace_at_document_start_does_nothing() {
    let mut t = Terminal::new(80, 24);
    t.open_editor("f.txt".to_string(), "ab");
    t.handle_input(Keys::Char('i'));
    let dirty = t.dirty;
    t.handle_input(Keys::BackSpace);
    assert_eq!(doc_of(&t), vec!["ab".to_string()]);
    assert_eq!((t.cursor.row, t.cursor.col), (0, 0));
    assert_eq!(t.dirty, dirty);
}

#[test]
fn enter_in_insert_splits_line_at_cursor() {
    let mut t = Terminal::new(80, 24);
    t.open_editor("f.txt".to_string(), "ab");
    t.handle_input(Keys::Right);
    t.handle_input(Keys::Char('i'));
    assert_eq!((t.cursor.row, t.cursor.col), (0, 1));
    t.handle_input(Keys::Enter);
    assert_eq!(doc_of(&t), vec!["a".to_string(), "b".to_string()]);
    assert_eq!((t.cursor.row, t.cursor.col), (1, 0));
}

#[test]
fn save_command_with_path_hands_out_file_contents() {
    let mut t = Terminal::new(80, 24);
    t.open_empty_editor();
    t.handle_input(Keys::Char('i'));
    type_str(&mut t, "Hello");
    t.handle_input(Keys::Esc);
    t.handle_input(Keys::Char(':'));
    assert_eq!(t.mode, Mode::Command);
    assert_eq!(string_of(&t.status), ":");
    type_str(&mut t, "w out.txt");
    let action = t.handle_input(Keys::Enter);
    match action {
        Action::Save(path, contents) => {
            assert_eq!(path, "out.txt");
            assert_eq!(contents, "Hello");
        }
        _ => panic!("expected a save action"),
    }
    assert_eq!(t.mode, Mode::Normal);
    assert_eq!(string_of(t.filename.as_ref().unwrap()), "out.txt");
    t.save_finished(true, String::new());
    assert_eq!(t.dirty, 0);
    assert_eq!(
        string_of(&t.status),
        "Successfully written 1 lines to out.txt"
    );
}

#[test]
fn bare_save_command_without_filename_reprompts() {
    let mut t = Terminal::new(80, 24);
    t.open_empty_editor();
    t.handle_input(Keys::Char(':'));
    t.handle_input(Keys::Char('w'));
    let action = t.handle_input(Keys::Enter);
    assert!(matches!(action, Action::Continue));
    assert_eq!(t.mode, Mode::Command);
    assert_eq!(string_of(&t.status), ":w ");
}

#[test]
fn bare_save_command_with_known_filename_saves_to_it() {
    let mut t = Terminal::new(80, 24);
    t.open_editor("f.txt".to_string(), "ab\ncd");
    t.handle_input(Keys::Char(':'));
    t.handle_input(Keys::Char('w'));
    let action = t.handle_input(Keys::Enter);
    match action {
        Action::Save(path, contents) => {
            assert_eq!(path, "f.txt");
            assert_eq!(contents, "ab\ncd");
        }
        _ => panic!("expected a save action"),
    }
}

#[test]
fn save_shortcut_without_filename_reprompts() {
    let mut t = Terminal::new(80, 24);
    t.open_empty_editor();
    let action = t.handle_input(Keys::SaveFile);
    assert!(matches!(action, Action::Continue));
    assert_eq!(t.mode, Mode::Command);
    assert_eq!(string_of(&t.status), ":w ");
}

#[test]
fn failed_save_keeps_dirty_and_shows_error() {
    let mut t = Terminal::new(80, 24);
    t.open_editor("f.txt".to_string(), "ab");
    t.handle_input(Keys::Char('i'));
    t.handle_input(Keys::Char('x'));
    t.handle_input(Keys::Esc);
    let dirty = t.dirty;
    assert!(dirty > 0);
    match t.handle_input(Keys::SaveFile) {
        Action::Save(_, _) => {}
        _ => panic!("expected a save action"),
    }
    t.save_finished(false, "No space left on device".to_string());
    assert_eq!(t.dirty, dirty);
    assert_eq!(string_of(&t.status), "No space left on device");
}

#[test]
fn quit_command_asks_for_shutdown() {
    let mut t = Terminal::new(80, 24);
    t.open_empty_editor();
    t.handle_input(Keys::Char(':'));
    t.handle_input(Keys::Char('q'));
    let action = t.handle_input(Keys::Enter);
    assert!(matches!(action, Action::Quit));
}

#[test]
fn unknown_command_shows_invalid_notice() {
    let mut t = Terminal::new(80, 24);
    t.open_empty_editor();
    t.handle_input(Keys::Char(':'));
    t.handle_input(Keys::Char('x'));
    let action = t.handle_input(Keys::Enter);
    assert!(matches!(action, Action::Continue));
    assert_eq!(t.mode, Mode::Normal);
    assert_eq!(string_of(&t.status), "Invalid Command");
    assert_eq!(t.num_rows, 0);
}

#[test]
fn escape_cancels_command_mode() {
    let mut t = Terminal::new(80, 24);
    t.open_empty_editor();
    t.handle_input(Keys::Char(':'));
    t.handle_input(Keys::Char('q'));
    t.handle_input(Keys::Esc);
    assert_eq!(t.mode, Mode::Normal);
    assert_eq!(string_of(&t.status), "-- NORMAL --");
}

#[test]
fn command_mode_edits_the_command_line() {
    let mut t = Terminal::new(80, 24);
    t.open_empty_editor();
    t.handle_input(Keys::Char(':'));
    type_str(&mut t, "wq");
    assert_eq!(string_of(&t.status), ":wq");
    t.handle_input(Keys::BackSpace);
    assert_eq!(string_of(&t.status), ":w");
    t.handle_input(Keys::BackSpace);
    t.handle_input(Keys::BackSpace);
    assert_eq!(string_of(&t.status), "");
    t.handle_input(Keys::BackSpace);
    assert_eq!(string_of(&t.status), "");
}

#[test]
fn other_printable_keys_are_ignored_in_normal_mode() {
    let mut t = Terminal::new(80, 24);
    t.open_editor("f.txt".to_string(), "ab");
    t.handle_input(Keys::Char('z'));
    t.handle_input(Keys::Delete);
    t.handle_input(Keys::NoKey);
    assert_eq!(doc_of(&t), vec!["ab".to_string()]);
    assert_eq!(t.mode, Mode::Normal);
    assert_eq!((t.cursor.row, t.cursor.col), (0, 0));
    assert_eq!(t.dirty, 0);
}

#[test]
fn page_down_and_page_up_move_by_a_window() {
    // a window of three visible text rows
    let mut t = Terminal::new(10, 5);
    t.open_editor(
        "f.txt".to_string(),
        "l0\nl1\nl2\nl3\nl4\nl5\nl6\nl7\nl8\nl9",
    );
    t.handle_input(Keys::PageDown);
    // bottom edge is row 2, then three Down steps
    assert_eq!((t.cursor.row, t.cursor.col), (5, 0));
    t.refresh_screen();
    t.handle_input(Keys::PageUp);
    // top edge is the row offset, then three Up steps
    assert_eq!((t.cursor.row, t.cursor.col), (0, 0));
}

#[test]
fn delete_char_before_operates_on_the_document() {
    let mut t = Terminal::new(80, 24);
    t.open_editor("f.txt".to_string(), "abc");
    t.delete_char_before(0, 2);
    assert_eq!(doc_of(&t), vec!["ac".to_string()]);
    assert_eq!(t.dirty, 1);
    t.delete_char_before(0, 0);
    assert_eq!(doc_of(&t), vec!["ac".to_string()]);
    assert_eq!(t.dirty, 1);
}

#[test]
fn home_and_end_jump_within_the_line() {
    let mut t = Terminal::new(80, 24);
    t.open_editor("f.txt".to_string(), "hello");
    t.handle_input(Keys::End);
    assert_eq!((t.cursor.row, t.cursor.col), (0, 5));
    t.handle_input(Keys::Home);
    assert_eq!((t.cursor.row, t.cursor.col), (0, 0));
}

#[test]
fn escape_in_normal_mode_shows_the_mode_notice() {
    let mut t = Terminal::new(80, 24);
    t.open_empty_editor();
    t.handle_input(Keys::Esc);
    assert_eq!(t.mode, Mode::Normal);
    assert_eq!(string_of(&t.status), "-- NORMAL --");
}

#[test]
fn delete_key_is_ignored_in_insert_mode() {
    let mut t = Terminal::new(80, 24);
    t.open_editor("f.txt".to_string(), "ab");
    t.handle_input(Keys::Char('i'));
    let dirty = t.dirty;
    t.handle_input(Keys::Delete);
    assert_eq!(doc_of(&t), vec!["ab".to_string()]);
    assert_eq!(t.dirty, dirty);
}

#[test]
fn save_confirmation_counts_all_lines() {
    let mut t = Terminal::new(80, 24);
    let text = (0..12).map(|i| format!("l{}", i)).collect::<Vec<_>>().join("\n");
    t.open_editor("f.txt".to_string(), &text);
    assert_eq!(t.num_rows, 12);
    match t.handle_input(Keys::SaveFile) {
        Action::Save(_, _) => {}
        _ => panic!("expected a save action"),
    }
    t.save_finished(true, String::new());
    assert_eq!(
        string_of(&t.status),
        "Successfully written 12 lines to f.txt"
    );
}

#[test]
fn split_and_join_are_inverse_on_the_document() {
    let mut t = Terminal::new(80, 24);
    t.open_editor("f.txt".to_string(), "hello world");
    t.split_line(0, 5);
    assert_eq!(doc_of(&t), vec!["hello".to_string(), " world".to_string()]);
    t.join_with_previous(1);
    assert_eq!(doc_of(&t), vec!["hello world".to_string()]);
}
