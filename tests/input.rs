use hexcat::input::Input;
use hexcat::paint::Painter;
use hexcat::terminal::{Key, Size};

fn type_text(input: &mut Input, text: &str) {
    for c in text.chars() {
        input.handle_key(Key::Char(c));
    }
}

fn chars(text: &str) -> Vec<char> {
    text.chars().collect()
}

#[test]
fn commit_even_digits_decodes_and_clears() {
    let mut input = Input::new();
    type_text(&mut input, "41 42");
    assert_eq!(input.drain_user_message(), Some(vec![0x41, 0x42]));
    assert_eq!(input.text(), Vec::<char>::new());
    assert_eq!(input.cursor(), 0);
    assert_eq!(input.scroll(), 0);
}

#[test]
fn commit_mixed_case_digits() {
    let mut input = Input::new();
    type_text(&mut input, "aB 0f FF");
    assert_eq!(input.drain_user_message(), Some(vec![0xab, 0x0f, 0xff]));
}

#[test]
fn commit_empty_line_gives_no_bytes() {
    let mut input = Input::new();
    assert_eq!(input.drain_user_message(), Some(vec![]));
    type_text(&mut input, "   ");
    assert_eq!(input.drain_user_message(), Some(vec![]));
    assert_eq!(input.text(), Vec::<char>::new());
}

#[test]
fn commit_single_digit_is_rejected() {
    let mut input = Input::new();
    type_text(&mut input, "4");
    assert_eq!(input.drain_user_message(), None);
    assert_eq!(input.text(), chars("4"));
    assert_eq!(input.cursor(), 1);
    assert_eq!(input.drain_user_message(), None);
    assert_eq!(input.text(), chars("4"));
}

#[test]
fn commit_odd_digits_with_spaces_is_rejected() {
    let mut input = Input::new();
    type_text(&mut input, "12 3");
    assert_eq!(input.drain_user_message(), None);
    assert_eq!(input.text(), chars("12 3"));
}

#[test]
fn only_hex_digits_and_spaces_are_taken() {
    let mut input = Input::new();
    assert!(input.handle_key(Key::Char('a')));
    assert!(!input.handle_key(Key::Char('g')));
    assert!(!input.handle_key(Key::Char('\n')));
    assert!(input.handle_key(Key::Char(' ')));
    assert!(!input.handle_key(Key::Other));
    assert_eq!(input.text(), chars("a "));
}

#[test]
fn backspace_on_empty_line_is_noop() {
    let mut input = Input::new();
    assert!(!input.handle_key(Key::Backspace));
    assert_eq!(input.text(), Vec::<char>::new());
    assert_eq!(input.cursor(), 0);
}

#[test]
fn backspace_removes_before_cursor() {
    let mut input = Input::new();
    type_text(&mut input, "123");
    assert!(input.handle_key(Key::Left));
    assert!(input.handle_key(Key::Backspace));
    assert_eq!(input.text(), chars("13"));
    assert_eq!(input.cursor(), 1);
}

#[test]
fn home_resets_cursor_and_scroll() {
    let mut input = Input::new();
    type_text(&mut input, "0123456789abcdef");
    input.scroll_into_view(20);
    assert!(input.scroll() > 0);
    assert!(input.handle_key(Key::Home));
    assert_eq!(input.cursor(), 0);
    assert_eq!(input.scroll(), 0);
    assert_eq!(input.text(), chars("0123456789abcdef"));
}

#[test]
fn cursor_moves_within_bounds() {
    let mut input = Input::new();
    type_text(&mut input, "ab");
    assert!(!input.handle_key(Key::Right));
    assert!(input.handle_key(Key::Left));
    assert!(input.handle_key(Key::Left));
    assert!(!input.handle_key(Key::Left));
    assert!(input.handle_key(Key::Char('c')));
    assert_eq!(input.text(), chars("cab"));
    assert!(input.handle_key(Key::End));
    assert_eq!(input.cursor(), 3);
}

#[test]
fn paint_input_region() {
    let mut input = Input::new();
    type_text(&mut input, "41 42");
    let rows = input.paint(Size { width: 20, height: 3 });
    assert_eq!(rows.len(), 3);
    let divider: String = rows[0].iter().collect();
    assert_eq!(divider, "────────┼───────────");
    let line: String = rows[1].iter().collect();
    assert_eq!(line, " Input: │ 41 42     ");
    assert_eq!(rows[2], vec![' '; 20]);
    assert_eq!(input.get_cursor_x_position(20), 14);
}

#[test]
fn long_input_shows_its_end() {
    let mut input = Input::new();
    type_text(&mut input, "0123456789ab");
    let rows = input.paint(Size { width: 20, height: 2 });
    let line: String = rows[1].iter().collect();
    assert_eq!(line, " Input: │ 3456789ab ");
    assert_eq!(input.get_cursor_x_position(20), 18);
    input.scroll_into_view(20);
    assert_eq!(input.scroll(), 3);
    assert_eq!(input.paint(Size { width: 20, height: 2 }), rows);
}

#[test]
fn cursor_position_of_empty_line() {
    let input = Input::new();
    assert_eq!(input.get_cursor_x_position(80), 9);
    assert_eq!(input.get_cursor_x_position(0), 9);
}

#[test]
fn narrow_input_region_keeps_its_size() {
    let mut input = Input::new();
    type_text(&mut input, "ff");
    let rows = input.paint(Size { width: 4, height: 1 });
    assert_eq!(rows, vec![vec!['─'; 4]]);
    assert_eq!(input.paint(Size { width: 0, height: 0 }).len(), 0);
}

#[test]
fn cursor_column_follows_prompt_and_shown_count() {
    let mut input = Input::new();
    type_text(&mut input, "ab");
    assert_eq!(input.get_cursor_x_position(80), 11);
}

#[test]
fn window_ends_at_cursor_after_backspace() {
    let mut input = Input::new();
    type_text(&mut input, "012");
    let size = Size { width: 13, height: 2 };
    let line: String = input.paint(size)[1].iter().collect();
    assert_eq!(line, " Input: │ 12 ");
    input.scroll_into_view(13);
    assert_eq!(input.scroll(), 1);
    assert!(input.handle_key(Key::Backspace));
    let line: String = input.paint(size)[1].iter().collect();
    assert_eq!(line, " Input: │ 01 ");
    assert_eq!(input.get_cursor_x_position(13), 11);
}

#[test]
fn scrolled_window_stays_while_cursor_moves_left() {
    let mut input = Input::new();
    type_text(&mut input, "0123456789ab");
    input.scroll_into_view(20);
    assert_eq!(input.scroll(), 3);
    for _ in 0..4 {
        assert!(input.handle_key(Key::Left));
    }
    let line: String = input.paint(Size { width: 20, height: 2 })[1].iter().collect();
    assert_eq!(line, " Input: │ 3456789ab ");
    assert_eq!(input.get_cursor_x_position(20), 14);
}
