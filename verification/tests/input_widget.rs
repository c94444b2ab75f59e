use tcptalk::input_widget::{
    is_word_boundary, next_cursor_visible, word_left_of, word_right_of, CursorCell, InputWidget,
    Key, KeyCode,
};
use tcptalk::text::chars_of;

fn plain(code: KeyCode) -> Key {
    Key { code, ctrl: false, alt: false }
}

fn ctrl(code: KeyCode) -> Key {
    Key { code, ctrl: true, alt: false }
}

fn alt(code: KeyCode) -> Key {
    Key { code, ctrl: false, alt: true }
}

fn widget_with(text: &str, cursor: usize) -> InputWidget {
    let mut w = InputWidget::new("alice".to_string());
    for c in text.chars() {
        assert!(!w.handle_key_event(plain(KeyCode::Char(c))));
    }
    w.cursor_position = cursor;
    w
}

#[test]
fn new_widget_is_empty_with_a_visible_cursor() {
    let w = InputWidget::new("alice".to_string());
    assert_eq!(w.text, "");
    assert_eq!(w.cursor_position, 0);
    assert!(w.cursor_visible);
    assert_eq!(w.username, "alice");
    assert!(w.is_empty());
}

#[test]
fn typing_inserts_at_the_cursor() {
    let mut w = widget_with("helo", 3);
    assert!(!w.handle_key_event(plain(KeyCode::Char('l'))));
    assert_eq!(w.text, "hello");
    assert_eq!(w.cursor_position, 4);
}

#[test]
fn typing_a_wide_character_moves_the_cursor_by_one() {
    let mut w = widget_with("", 0);
    w.handle_key_event(plain(KeyCode::Char('é')));
    w.handle_key_event(plain(KeyCode::Char('x')));
    assert_eq!(w.text, "éx");
    assert_eq!(w.cursor_position, 2);
    w.handle_key_event(plain(KeyCode::Backspace));
    w.handle_key_event(plain(KeyCode::Backspace));
    assert_eq!(w.text, "");
    assert_eq!(w.cursor_position, 0);
}

#[test]
fn control_c_quits_and_changes_nothing() {
    let mut w = widget_with("abc", 2);
    assert!(w.handle_key_event(ctrl(KeyCode::Char('c'))));
    assert_eq!(w.text, "abc");
    assert_eq!(w.cursor_position, 2);
}

#[test]
fn plain_c_is_typed() {
    let mut w = widget_with("ab", 2);
    assert!(!w.handle_key_event(plain(KeyCode::Char('c'))));
    assert_eq!(w.text, "abc");
}

#[test]
fn control_u_deletes_up_to_the_cursor() {
    let mut w = widget_with("hello world", 6);
    assert!(!w.handle_key_event(ctrl(KeyCode::Char('u'))));
    assert_eq!(w.text, "world");
    assert_eq!(w.cursor_position, 0);
}

#[test]
fn control_a_and_e_jump_to_the_ends() {
    let mut w = widget_with("hello", 2);
    w.handle_key_event(ctrl(KeyCode::Char('a')));
    assert_eq!(w.cursor_position, 0);
    w.handle_key_event(ctrl(KeyCode::Char('e')));
    assert_eq!(w.cursor_position, 5);
    assert_eq!(w.text, "hello");
}

#[test]
fn alt_f_and_b_move_by_words() {
    let mut w = widget_with("one two, three", 0);
    w.handle_key_event(alt(KeyCode::Char('f')));
    assert_eq!(w.cursor_position, 4);
    w.handle_key_event(alt(KeyCode::Char('f')));
    assert_eq!(w.cursor_position, 9);
    w.handle_key_event(alt(KeyCode::Char('f')));
    assert_eq!(w.cursor_position, 14);
    w.handle_key_event(alt(KeyCode::Char('b')));
    assert_eq!(w.cursor_position, 9);
    w.handle_key_event(alt(KeyCode::Char('b')));
    assert_eq!(w.cursor_position, 4);
    w.handle_key_event(alt(KeyCode::Char('b')));
    assert_eq!(w.cursor_position, 0);
    assert_eq!(w.text, "one two, three");
}

#[test]
fn control_wins_over_alt_for_letters() {
    let mut w = widget_with("ab cd", 3);
    w.handle_key_event(Key { code: KeyCode::Char('a'), ctrl: true, alt: true });
    assert_eq!(w.cursor_position, 0);
    let mut w = widget_with("ab cd", 3);
    w.handle_key_event(Key { code: KeyCode::Char('f'), ctrl: true, alt: false });
    assert_eq!(w.text, "ab fcd");
}

#[test]
fn backspace_removes_the_character_before_the_cursor() {
    let mut w = widget_with("hello", 3);
    w.handle_key_event(plain(KeyCode::Backspace));
    assert_eq!(w.text, "helo");
    assert_eq!(w.cursor_position, 2);
}

#[test]
fn backspace_at_the_start_does_nothing() {
    let mut w = widget_with("hello", 0);
    w.handle_key_event(plain(KeyCode::Backspace));
    w.handle_key_event(alt(KeyCode::Backspace));
    assert_eq!(w.text, "hello");
    assert_eq!(w.cursor_position, 0);
}

#[test]
fn alt_backspace_removes_the_word_before_the_cursor() {
    let mut w = widget_with("one two three", 7);
    w.handle_key_event(alt(KeyCode::Backspace));
    assert_eq!(w.text, "one  three");
    assert_eq!(w.cursor_position, 4);
    let mut w = widget_with("one two.  ", 10);
    w.handle_key_event(alt(KeyCode::Backspace));
    assert_eq!(w.text, "one ");
    assert_eq!(w.cursor_position, 4);
    let mut w = widget_with("word", 4);
    w.handle_key_event(alt(KeyCode::Backspace));
    assert_eq!(w.text, "");
    assert_eq!(w.cursor_position, 0);
}

#[test]
fn delete_removes_the_character_under_the_cursor() {
    let mut w = widget_with("hello", 1);
    w.handle_key_event(plain(KeyCode::Delete));
    assert_eq!(w.text, "hllo");
    assert_eq!(w.cursor_position, 1);
    let mut w = widget_with("hello", 5);
    w.handle_key_event(plain(KeyCode::Delete));
    assert_eq!(w.text, "hello");
    assert_eq!(w.cursor_position, 5);
}

#[test]
fn arrows_move_by_one_and_stop_at_the_ends() {
    let mut w = widget_with("ab", 1);
    w.handle_key_event(plain(KeyCode::Left));
    assert_eq!(w.cursor_position, 0);
    w.handle_key_event(plain(KeyCode::Left));
    assert_eq!(w.cursor_position, 0);
    w.handle_key_event(plain(KeyCode::Right));
    w.handle_key_event(plain(KeyCode::Right));
    assert_eq!(w.cursor_position, 2);
    w.handle_key_event(plain(KeyCode::Right));
    assert_eq!(w.cursor_position, 2);
}

#[test]
fn arrows_with_modifiers_jump() {
    let mut w = widget_with("one two", 5);
    w.handle_key_event(alt(KeyCode::Left));
    assert_eq!(w.cursor_position, 4);
    w.handle_key_event(ctrl(KeyCode::Left));
    assert_eq!(w.cursor_position, 0);
    w.handle_key_event(alt(KeyCode::Right));
    assert_eq!(w.cursor_position, 4);
    w.handle_key_event(ctrl(KeyCode::Right));
    assert_eq!(w.cursor_position, 7);
    let mut w = widget_with("one two", 5);
    w.handle_key_event(Key { code: KeyCode::Left, ctrl: true, alt: true });
    assert_eq!(w.cursor_position, 4);
}

#[test]
fn enter_and_unknown_keys_leave_the_text() {
    let mut w = widget_with("abc", 1);
    assert!(!w.handle_key_event(plain(KeyCode::Enter)));
    assert!(!w.handle_key_event(plain(KeyCode::Other)));
    assert!(!w.handle_key_event(ctrl(KeyCode::Other)));
    assert_eq!(w.text, "abc");
    assert_eq!(w.cursor_position, 1);
}

#[test]
fn word_moves_on_their_own() {
    let v = chars_of("it's a \"test\"; ok?");
    assert_eq!(word_left_of(&v, 0), 0);
    assert_eq!(word_left_of(&v, 2), 0);
    assert_eq!(word_left_of(&v, 3), 0);
    assert_eq!(word_left_of(&v, 4), 3);
    assert_eq!(word_left_of(&v, 15), 8);
    assert_eq!(word_left_of(&v, 18), 15);
    assert_eq!(word_right_of(&v, 0), 3);
    assert_eq!(word_right_of(&v, 3), 5);
    assert_eq!(word_right_of(&v, 8), 15);
    assert_eq!(word_right_of(&v, 15), 18);
    assert_eq!(word_right_of(&v, 18), 18);
}

#[test]
fn word_boundaries_are_white_space_and_seven_marks() {
    for c in [' ', '\t', '\n', '\'', '"', ';', ',', '.', '!', '?', '\u{00A0}'] {
        assert!(is_word_boundary(c), "{:?}", c);
    }
    for c in ['a', 'Z', '0', ':', '-', '_', '(', 'é'] {
        assert!(!is_word_boundary(c), "{:?}", c);
    }
}

#[test]
fn clear_empties_the_text() {
    let mut w = widget_with("hello", 3);
    w.cursor_visible = false;
    w.clear();
    assert_eq!(w.text, "");
    assert_eq!(w.cursor_position, 0);
    assert!(!w.cursor_visible);
    assert_eq!(w.username, "alice");
}

#[test]
fn is_empty_looks_through_white_space() {
    assert!(widget_with("", 0).is_empty());
    assert!(widget_with("  \t ", 2).is_empty());
    assert!(!widget_with("  x ", 2).is_empty());
}

#[test]
fn get_text_copies_the_text_untrimmed() {
    let w = widget_with(" hi ", 4);
    assert_eq!(w.get_text(), " hi ");
    assert_eq!(w.text, " hi ");
}

#[test]
fn single_moves() {
    let mut w = widget_with("a b", 1);
    w.move_cursor_left();
    assert_eq!(w.cursor_position, 0);
    w.move_cursor_right();
    assert_eq!(w.cursor_position, 1);
    w.move_cursor_to_end();
    assert_eq!(w.cursor_position, 3);
    w.move_cursor_to_start();
    assert_eq!(w.cursor_position, 0);
    w.move_cursor_word_right();
    assert_eq!(w.cursor_position, 2);
    w.move_cursor_word_left();
    assert_eq!(w.cursor_position, 0);
}

#[test]
fn blink_toggles_after_a_second_and_shows_before() {
    assert!(next_cursor_visible(true, 0));
    assert!(next_cursor_visible(false, 0));
    assert!(!next_cursor_visible(true, 1));
    assert!(next_cursor_visible(false, 1));
    assert!(!next_cursor_visible(true, 3600));
}

#[test]
fn blink_right_after_input_shows_the_cursor() {
    let mut w = widget_with("abc", 3);
    w.cursor_visible = false;
    w.update_cursor_blink();
    assert!(w.cursor_visible);
    assert_eq!(w.text, "abc");
    assert_eq!(w.cursor_position, 3);
}

#[test]
fn blink_long_after_input_toggles_the_cursor() {
    let mut w = widget_with("abc", 3);
    if let Some(past) = std::time::Instant::now().checked_sub(std::time::Duration::from_secs(5)) {
        w.last_input_time = past;
        w.cursor_visible = true;
        w.update_cursor_blink();
        assert!(!w.cursor_visible);
        w.update_cursor_blink();
        assert!(w.cursor_visible);
    }
}

#[test]
fn a_key_resets_the_idle_time() {
    let mut w = widget_with("abc", 3);
    if let Some(past) = std::time::Instant::now().checked_sub(std::time::Duration::from_secs(5)) {
        w.last_input_time = past;
        w.handle_key_event(plain(KeyCode::Left));
        assert!(w.last_input_time.elapsed().as_secs() < 5);
        w.last_input_time = past;
        w.handle_key_event(plain(KeyCode::Other));
        assert_eq!(w.last_input_time, past);
        w.handle_key_event(ctrl(KeyCode::Char('c')));
        assert_eq!(w.last_input_time, past);
    }
}

#[test]
fn height_is_at_least_three_rows() {
    assert_eq!(widget_with("", 0).calculate_height(80), 3);
    assert_eq!(widget_with("hello", 0).calculate_height(1), 6);
    assert_eq!(widget_with("hello", 0).calculate_height(2), 3);
    let long: String = std::iter::repeat('x').take(100).collect();
    assert_eq!(widget_with(&long, 0).calculate_height(10), 11);
    assert_eq!(widget_with(&long, 0).calculate_height(101), 3);
    let exact: String = std::iter::repeat('x').take(39).collect();
    assert_eq!(widget_with(&exact, 0).calculate_height(10), 4);
}

#[test]
fn height_measures_the_text_in_bytes() {
    assert_eq!(widget_with("ééé", 0).calculate_height(1), 7);
    assert_eq!(widget_with("aaa", 0).calculate_height(1), 4);
    assert_eq!(widget_with("€€€€", 0).calculate_height(4), 4);
}

#[test]
fn height_never_shrinks_when_the_text_grows() {
    let mut w = widget_with("", 0);
    let mut last = w.calculate_height(7);
    for c in "a longer and longer text, with é and € in it".chars() {
        w.handle_key_event(plain(KeyCode::Char(c)));
        let h = w.calculate_height(7);
        assert!(h >= last);
        last = h;
    }
    assert_eq!(last, 7);
}

#[test]
fn layout_splits_the_text_at_the_cursor() {
    let mut w = widget_with("hello", 1);
    let line = w.layout();
    assert_eq!(line.before, "h");
    assert_eq!(line.cursor, CursorCell::Highlighted('e'));
    assert_eq!(line.after, "llo");
    w.cursor_visible = false;
    assert_eq!(w.layout().cursor, CursorCell::Plain('e'));
    w.cursor_position = 5;
    let line = w.layout();
    assert_eq!(line.before, "hello");
    assert_eq!(line.cursor, CursorCell::Hidden);
    assert_eq!(line.after, "");
    w.cursor_visible = true;
    assert_eq!(w.layout().cursor, CursorCell::Block);
    w.cursor_position = 4;
    let line = w.layout();
    assert_eq!(line.cursor, CursorCell::Highlighted('o'));
    assert_eq!(line.after, "");
}

#[test]
fn info_line_names_the_sender() {
    assert_eq!(widget_with("", 0).info_line(), "Sending message as alice");
}
