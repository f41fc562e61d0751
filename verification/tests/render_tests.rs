use tuke::geometry::{Position, Region, Size};
use tuke::keycode::KeyCode;
use tuke::layout::{Directive, Layout};
use tuke::preview::Preview;
use tuke::render::{layout_offset, render, Frame};
use tuke::state::{KeyPressState, KeyState, Keyboard};

fn row_chars(f: &Frame, r: usize) -> String {
    f.cells[r].iter().map(|c| c.ch).collect()
}

fn key_state(code: KeyCode, rows: usize, cols: usize) -> KeyState {
    let ds = vec![Directive::Key {
        code,
        shift_code: None,
        size: Some(Size { rows, cols }),
    }];
    let layout = Layout::build(&ds).unwrap();
    KeyState::new(layout.keys[0])
}

#[test]
fn key_box_has_borders_and_a_centered_label() {
    let ks = key_state(KeyCode::Char('a'), 3, 5);
    let f = ks.to_frame(false);
    assert_eq!(f.size, Size { rows: 3, cols: 5 });
    assert_eq!(row_chars(&f, 0), "┌───┐");
    assert_eq!(row_chars(&f, 1), "│ a │");
    assert_eq!(row_chars(&f, 2), "└───┘");
}

#[test]
fn minimum_key_box() {
    let ks = key_state(KeyCode::Char('x'), 3, 3);
    let f = ks.to_frame(false);
    assert_eq!(row_chars(&f, 0), "┌─┐");
    assert_eq!(row_chars(&f, 1), "│x│");
    assert_eq!(row_chars(&f, 2), "└─┘");
}

#[test]
fn label_sits_on_the_middle_row() {
    let ks = key_state(KeyCode::Char('a'), 5, 5);
    let f = ks.to_frame(false);
    assert_eq!(row_chars(&f, 1), "│   │");
    assert_eq!(row_chars(&f, 2), "│ a │");
    assert_eq!(row_chars(&f, 3), "│   │");
}

#[test]
fn long_labels_are_truncated_to_the_interior() {
    let ks = key_state(KeyCode::Enter, 3, 5);
    let f = ks.to_frame(false);
    assert_eq!(row_chars(&f, 1), "│Ent│");
}

#[test]
fn shifted_labels_show_while_shift_is_displayed() {
    let ks = key_state(KeyCode::Char('a'), 3, 5);
    let f = ks.to_frame(true);
    assert_eq!(row_chars(&f, 1), "│ A │");
}

#[test]
fn styles_follow_the_press_state() {
    let mut ks = key_state(KeyCode::Char('a'), 3, 3);
    let f = ks.to_frame(false);
    assert!(!f.cells[0][0].style.bold && !f.cells[0][0].style.italic);
    ks.press = KeyPressState::Pressed;
    let f = ks.to_frame(false);
    assert!(f.cells[0][0].style.bold);
    ks.press = KeyPressState::OneshotActivated;
    let f = ks.to_frame(false);
    assert!(f.cells[0][0].style.italic && !f.cells[0][0].style.reverse);
    ks.press = KeyPressState::Activated;
    let f = ks.to_frame(false);
    assert!(f.cells[0][0].style.italic && f.cells[0][0].style.reverse);
}

#[test]
fn selected_keys_are_bold() {
    let mut ks = key_state(KeyCode::SelectPane { index: 0 }, 3, 7);
    ks.selected = true;
    let f = ks.to_frame(false);
    assert!(f.cells[0][0].style.bold);
}

#[test]
fn blank_frame_is_spaces() {
    let f = Frame::new(Size { rows: 2, cols: 4 });
    assert_eq!(row_chars(&f, 0), "    ");
    assert_eq!(row_chars(&f, 1), "    ");
}

#[test]
fn layout_is_centered_in_the_terminal() {
    let ds = vec![Directive::Key { code: KeyCode::Char('a'), shift_code: None, size: None }];
    let kb = Keyboard::new(&Layout::build(&ds).unwrap());
    let term = Size { rows: 7, cols: 9 };
    let offset = layout_offset(&kb, None, term);
    assert_eq!(offset, Position { row: 2, col: 3 });
    let f = render(&kb, false, None, term);
    assert_eq!(f.size, term);
    assert_eq!(row_chars(&f, 2), "   ┌─┐   ");
    assert_eq!(row_chars(&f, 3), "   │a│   ");
    assert_eq!(row_chars(&f, 4), "   └─┘   ");
    assert_eq!(row_chars(&f, 0), "         ");
}

#[test]
fn a_layout_larger_than_the_terminal_sits_at_the_origin_and_clips() {
    let ds = vec![Directive::Key { code: KeyCode::Char('a'), shift_code: None, size: None }];
    let kb = Keyboard::new(&Layout::build(&ds).unwrap());
    let term = Size { rows: 2, cols: 2 };
    let offset = layout_offset(&kb, None, term);
    assert_eq!(offset, Position { row: 0, col: 0 });
    let f = render(&kb, false, None, term);
    assert_eq!(row_chars(&f, 0), "┌─");
    assert_eq!(row_chars(&f, 1), "│a");
}

#[test]
fn two_keys_composite_side_by_side() {
    let ds = vec![
        Directive::Key { code: KeyCode::Char('a'), shift_code: None, size: None },
        Directive::Key { code: KeyCode::Char('b'), shift_code: None, size: None },
    ];
    let kb = Keyboard::new(&Layout::build(&ds).unwrap());
    let term = Size { rows: 3, cols: 6 };
    let f = render(&kb, false, None, term);
    assert_eq!(row_chars(&f, 1), "│a││b│");
}

#[test]
fn preview_strip_shows_its_text() {
    let ds = vec![
        Directive::Key { code: KeyCode::Char('a'), shift_code: None, size: None },
        Directive::Newline { rows: 1 },
        Directive::Preview { cols: 6 },
    ];
    let layout = Layout::build(&ds).unwrap();
    let kb = Keyboard::new(&layout);
    let mut preview = Preview::new(layout.preview.unwrap());
    preview.record_send("h");
    preview.record_send("i");
    let term = Size { rows: 4, cols: 6 };
    let f = render(&kb, false, Some(&preview), term);
    assert_eq!(row_chars(&f, 3), "hi    ");
}

#[test]
fn rendering_with_shift_uses_shifted_labels() {
    let ds = vec![Directive::Key { code: KeyCode::Char('q'), shift_code: None, size: None }];
    let kb = Keyboard::new(&Layout::build(&ds).unwrap());
    let term = Size { rows: 3, cols: 3 };
    let f = render(&kb, true, None, term);
    assert_eq!(row_chars(&f, 1), "│Q│");
}
