use clibuddy_sidebar::multiline::{ChatInputHandler, EditKey, EditModifiers, MultilineTextInput};

fn plain() -> EditModifiers {
    EditModifiers { shift: false, ctrl: false, alt: false, super_key: false }
}

fn shift() -> EditModifiers {
    EditModifiers { shift: true, ctrl: false, alt: false, super_key: false }
}

fn ctrl() -> EditModifiers {
    EditModifiers { shift: false, ctrl: true, alt: false, super_key: false }
}

fn with_text(s: &str) -> MultilineTextInput {
    let mut m = MultilineTextInput::new(3);
    m.set_text(s);
    m
}

#[test]
fn typing_builds_lines() {
    let mut m = MultilineTextInput::new(3);
    for c in ['h', 'i', '\n', 'y', 'o'] {
        m.insert_char(c);
    }
    assert_eq!(m.lines, vec!["hi".to_string(), "yo".to_string()]);
    assert_eq!((m.cursor_line, m.cursor_col), (1, 2));
    assert_eq!(m.get_text(), "hi\nyo");
}

#[test]
fn backspace_undoes_typing_in_editor() {
    let mut m = with_text("abc");
    m.move_left();
    m.insert_char('X');
    assert_eq!(m.get_text(), "abXc");
    assert_eq!(m.cursor_col, 3);
    m.backspace();
    assert_eq!(m.get_text(), "abc");
    assert_eq!((m.cursor_line, m.cursor_col), (0, 2));
    assert!(!m.user_has_scrolled);
}

#[test]
fn backspace_joins_new_line() {
    let mut m = with_text("hello");
    m.move_left();
    m.move_left();
    m.insert_newline();
    assert_eq!(m.lines, vec!["hel".to_string(), "lo".to_string()]);
    assert_eq!((m.cursor_line, m.cursor_col), (1, 0));
    m.backspace();
    assert_eq!(m.lines, vec!["hello".to_string()]);
    assert_eq!((m.cursor_line, m.cursor_col), (0, 3));
}

#[test]
fn set_text_splits_lines() {
    let m = with_text("a\r\nb\n");
    assert_eq!(m.lines, vec!["a".to_string(), "b".to_string()]);
    assert_eq!((m.cursor_line, m.cursor_col), (1, 1));
    assert_eq!(m.get_text(), "a\nb");
    let e = with_text("");
    assert_eq!(e.lines, vec![String::new()]);
    assert!(ChatInputHandler::is_empty(&e));
}

#[test]
fn get_text_returns_set_text() {
    for s in ["one\ntwo\n\nthree", "single", "", "\nlead", "tr\u{e9}s\nbien"] {
        let m = with_text(s);
        assert_eq!(m.get_text(), s);
    }
}

#[test]
fn delete_joins_next_line() {
    let mut m = with_text("ab\ncd");
    m.move_up();
    assert_eq!((m.cursor_line, m.cursor_col), (0, 2));
    m.delete();
    assert_eq!(m.lines, vec!["abcd".to_string()]);
    m.move_right();
    m.move_right();
    assert_eq!(m.cursor_col, 4);
    m.move_down();
    assert_eq!(m.cursor_line, 0);
}

#[test]
fn cursor_wraps_between_lines() {
    let mut m = with_text("ab\ncd");
    assert!(m.handle_key_event(&EditKey::Home, plain()));
    m.move_left();
    assert_eq!((m.cursor_line, m.cursor_col), (0, 2));
    m.move_right();
    assert_eq!((m.cursor_line, m.cursor_col), (1, 0));
}

#[test]
fn enter_without_shift_is_left_to_caller() {
    let mut m = with_text("hi");
    assert!(!m.handle_key_event(&EditKey::Enter, plain()));
    assert!(!ChatInputHandler::handle_key_event(&mut m, &EditKey::Enter, plain()));
    assert_eq!(m.lines.len(), 1);
    assert!(m.handle_key_event(&EditKey::Enter, shift()));
    assert_eq!(m.lines.len(), 2);
    assert!(!m.handle_key_event(&EditKey::Other, plain()));
}

#[test]
fn select_all_then_type_replaces_everything() {
    let mut m = with_text("hi\nyo");
    assert!(m.handle_key_event(&EditKey::Char('a'), ctrl()));
    assert_eq!(m.selection_start, Some((0, 0)));
    assert_eq!((m.cursor_line, m.cursor_col), (1, 2));
    assert_eq!(m.get_selected_text(), Some("hi\nyo".to_string()));
    assert!(m.handle_key_event(&EditKey::Char('z'), plain()));
    assert_eq!(m.get_text(), "z");
    assert_eq!(m.selection_start, None);
}

#[test]
fn shift_arrows_extend_selection() {
    let mut m = with_text("abc");
    assert!(m.handle_key_event(&EditKey::Home, plain()));
    assert!(m.handle_key_event(&EditKey::RightArrow, shift()));
    assert!(m.handle_key_event(&EditKey::RightArrow, shift()));
    assert_eq!(m.get_selected_text(), Some("ab".to_string()));
    assert!(m.handle_key_event(&EditKey::Backspace, plain()));
    assert_eq!(m.get_text(), "c");
    assert!(m.handle_key_event(&EditKey::End, plain()));
    assert_eq!(m.cursor_col, 1);
    assert!(m.handle_key_event(&EditKey::LeftArrow, plain()));
    assert_eq!(m.selection_start, None);
}

#[test]
fn selection_across_lines() {
    let mut m = with_text("hello\nmiddle\nworld");
    m.cursor_line = 0;
    m.cursor_col = 2;
    m.start_selection();
    m.cursor_line = 2;
    m.cursor_col = 3;
    assert_eq!(m.get_selected_text(), Some("llo\nmiddle\nwor".to_string()));
    assert!(m.handle_key_event(&EditKey::Delete, plain()));
    assert_eq!(m.lines, vec!["held".to_string()]);
    assert_eq!((m.cursor_line, m.cursor_col), (0, 2));
}

#[test]
fn wheel_scrolls_when_focused_and_long() {
    let mut m = MultilineTextInput::new(2);
    m.set_text("1\n2\n3\n4\n5");
    assert_eq!(m.first_visible_line(), 3);
    assert!(!m.handle_wheel(1));
    m.focused = true;
    assert!(!m.handle_wheel(-1));
    assert!(m.handle_wheel(1));
    assert_eq!(m.first_visible_line(), 2);
    assert!(m.user_has_scrolled);
    let shown: Vec<String> = m.visible_lines().into_iter().cloned().collect();
    assert_eq!(shown, vec!["3".to_string(), "4".to_string()]);
    m.update_scroll_for_typing();
    assert_eq!(m.first_visible_line(), 3);
    assert!(!m.user_has_scrolled);
}

#[test]
fn max_lines_stops_new_lines() {
    let mut m = MultilineTextInput::new(3).with_max_lines(1).with_placeholder("Ask".to_string());
    assert_eq!(m.placeholder, "Ask");
    m.insert_char('a');
    m.insert_newline();
    m.insert_char('\n');
    assert_eq!(m.lines, vec!["a".to_string()]);
}

#[test]
fn chat_handler_delegates() {
    let mut m = MultilineTextInput::new(3);
    ChatInputHandler::handle_char_input(&mut m, 'o');
    ChatInputHandler::handle_char_input(&mut m, 'k');
    assert_eq!(ChatInputHandler::get_text(&m), "ok");
    assert!(!ChatInputHandler::is_empty(&m));
    assert!(ChatInputHandler::handle_key_event(&mut m, &EditKey::Backspace, plain()));
    assert_eq!(ChatInputHandler::get_text(&m), "o");
    m.user_has_scrolled = true;
    ChatInputHandler::clear(&mut m);
    assert!(ChatInputHandler::is_empty(&m));
    assert!(!m.user_has_scrolled);
    assert_eq!((m.cursor_line, m.cursor_col), (0, 0));
}

#[test]
fn disabled_editor_ignores_keys() {
    let mut m = with_text("x");
    m.disabled = true;
    assert!(!m.handle_key_event(&EditKey::Char('y'), plain()));
    m.insert_char('y');
    m.backspace();
    m.start_selection();
    assert_eq!(m.get_text(), "x");
    assert_eq!(m.selection_start, None);
}

fn texts(rows: &[clibuddy_sidebar::multiline::LineView]) -> Vec<String> {
    rows.iter().map(|r| r.text.clone()).collect()
}

#[test]
fn render_rows_with_cursor_and_fillers() {
    let mut m = with_text("ab\ncd");
    let rows = m.render();
    assert_eq!(texts(&rows), vec!["ab".to_string(), "cd".to_string(), " ".to_string()]);
    assert!(rows.iter().all(|r| !r.placeholder && r.selection.is_none()));
    m.focused = true;
    assert_eq!(texts(&m.render()), vec!["ab".to_string(), "cd\u{2502}".to_string(), " ".to_string()]);
}

#[test]
fn render_shows_placeholder_when_empty_and_unfocused() {
    let mut m = MultilineTextInput::new(2).with_placeholder("Ask".to_string());
    let rows = m.render();
    assert_eq!(texts(&rows), vec!["Ask".to_string(), " ".to_string()]);
    assert!(rows[0].placeholder);
    m.focused = true;
    let rows = m.render();
    assert_eq!(texts(&rows), vec!["\u{2502}".to_string(), " ".to_string()]);
    assert!(!rows[0].placeholder);
}

#[test]
fn render_with_selection_marks_selected_bytes() {
    let mut m = with_text("h\u{e9}llo\nworld");
    m.cursor_line = 0;
    m.cursor_col = 1;
    m.start_selection();
    m.cursor_line = 1;
    m.cursor_col = 3;
    let rows = m.render_with_selection();
    assert_eq!(texts(&rows), vec!["h\u{e9}llo".to_string(), "world".to_string(), " ".to_string()]);
    assert_eq!(rows[0].selection, Some((1, 6)));
    assert_eq!(rows[1].selection, Some((0, 3)));
    assert_eq!(rows[2].selection, None);
    m.focused = true;
    let rows = m.render_with_selection();
    assert_eq!(rows[1].text, "wor\u{2502}ld");
    assert_eq!(rows[1].selection, Some((0, 3)));
}

#[test]
fn render_with_selection_without_selection() {
    let mut m = MultilineTextInput::new(1).with_placeholder("Ask".to_string());
    let rows = m.render_with_selection();
    assert_eq!(texts(&rows), vec!["Ask".to_string()]);
    assert!(rows[0].placeholder);
    m.focused = true;
    m.set_text("\u{e9}ab");
    m.move_left();
    assert_eq!(m.cursor_col, 3);
    // the plain rendering reads the cursor column as bytes, the one with
    // selection as characters
    assert_eq!(m.render()[0].text, "\u{e9}a\u{2502}b");
    assert_eq!(m.render_with_selection()[0].text, "\u{e9}ab\u{2502}");
}

#[test]
fn click_and_drag_place_cursor_by_byte_estimate() {
    let mut m = with_text("h\u{e9}llo\nworld");
    m.start_selection();
    m.handle_click(0, 2);
    assert_eq!((m.cursor_line, m.cursor_col), (0, 2));
    assert_eq!(m.selection_start, None);
    m.handle_click(0, 100);
    assert_eq!(m.cursor_col, 5);
    m.handle_click(0, 2);
    m.start_selection();
    m.update_selection(1, 3);
    assert_eq!((m.cursor_line, m.cursor_col), (1, 3));
    assert_eq!(m.get_selected_text(), Some("llo\nwor".to_string()));
    // rows without a line change nothing
    m.handle_click(2, 0);
    assert_eq!((m.cursor_line, m.cursor_col), (1, 3));
    m.update_selection(7, 0);
    assert_eq!(m.selection_start, Some((0, 2)));
}
