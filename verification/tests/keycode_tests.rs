use tuke::keycode::KeyCode;
use tuke::layout::LayoutError;

#[test]
fn modifier_flags() {
    assert!(KeyCode::Shift.is_modifier());
    assert!(KeyCode::Ctrl.is_modifier());
    assert!(KeyCode::Alt.is_modifier());
    assert!(!KeyCode::Char('a').is_modifier());
    assert!(!KeyCode::Quit.is_modifier());
    assert!(!KeyCode::Enter.is_modifier());
}

#[test]
fn special_flags() {
    assert!(KeyCode::Quit.is_special());
    assert!(KeyCode::DisplayPanes.is_special());
    assert!(KeyCode::SelectPane { index: 2 }.is_special());
    assert!(KeyCode::ShowCursor.is_special());
    assert!(KeyCode::CopyMode.is_special());
    assert!(KeyCode::Paste.is_special());
    assert!(!KeyCode::Char('a').is_special());
    assert!(!KeyCode::Shift.is_special());
    assert!(!KeyCode::Up.is_special());
}

#[test]
fn modifier_and_special_are_exclusive() {
    let all = [
        KeyCode::Char('x'),
        KeyCode::Shift,
        KeyCode::Ctrl,
        KeyCode::Alt,
        KeyCode::Up,
        KeyCode::Down,
        KeyCode::Left,
        KeyCode::Right,
        KeyCode::Enter,
        KeyCode::Backspace,
        KeyCode::Delete,
        KeyCode::Tab,
        KeyCode::Quit,
        KeyCode::DisplayPanes,
        KeyCode::SelectPane { index: 0 },
        KeyCode::ShowCursor,
        KeyCode::CopyMode,
        KeyCode::Paste,
    ];
    for code in all {
        assert!(!(code.is_modifier() && code.is_special()));
    }
}

#[test]
fn only_characters_and_arrows_are_modifiable() {
    assert!(KeyCode::Char('a').is_modifiable());
    assert!(KeyCode::Up.is_modifiable());
    assert!(KeyCode::Down.is_modifiable());
    assert!(KeyCode::Left.is_modifiable());
    assert!(KeyCode::Right.is_modifiable());
    assert!(!KeyCode::Enter.is_modifiable());
    assert!(!KeyCode::Shift.is_modifiable());
    assert!(!KeyCode::Quit.is_modifiable());
    assert!(!KeyCode::Tab.is_modifiable());
}

#[test]
fn default_shift_code_uppercases_letters_only() {
    assert_eq!(KeyCode::Char('a').default_shift_code(), KeyCode::Char('A'));
    assert_eq!(KeyCode::Char('z').default_shift_code(), KeyCode::Char('Z'));
    assert_eq!(KeyCode::Char('m').default_shift_code(), KeyCode::Char('M'));
    assert_eq!(KeyCode::Char('5').default_shift_code(), KeyCode::Char('5'));
    assert_eq!(KeyCode::Char('A').default_shift_code(), KeyCode::Char('A'));
    assert_eq!(KeyCode::Char(' ').default_shift_code(), KeyCode::Char(' '));
    assert_eq!(KeyCode::Enter.default_shift_code(), KeyCode::Enter);
    assert_eq!(KeyCode::Shift.default_shift_code(), KeyCode::Shift);
}

#[test]
fn labels_use_multiplexer_notation() {
    assert_eq!(KeyCode::Char('a').label(), "a");
    assert_eq!(KeyCode::Shift.label(), "S-");
    assert_eq!(KeyCode::Ctrl.label(), "C-");
    assert_eq!(KeyCode::Alt.label(), "M-");
    assert_eq!(KeyCode::Up.label(), "Up");
    assert_eq!(KeyCode::Down.label(), "Down");
    assert_eq!(KeyCode::Left.label(), "Left");
    assert_eq!(KeyCode::Right.label(), "Right");
    assert_eq!(KeyCode::Enter.label(), "Enter");
    assert_eq!(KeyCode::Backspace.label(), "BSpace");
    assert_eq!(KeyCode::Delete.label(), "Delete");
    assert_eq!(KeyCode::Tab.label(), "Tab");
    assert_eq!(KeyCode::Quit.label(), "Quit");
    assert_eq!(KeyCode::DisplayPanes.label(), "Panes");
    assert_eq!(KeyCode::SelectPane { index: 13 }.label(), "Pane13");
    assert_eq!(KeyCode::SelectPane { index: 0 }.label(), "Pane0");
    assert_eq!(KeyCode::ShowCursor.label(), "Cursor");
    assert_eq!(KeyCode::CopyMode.label(), "Copy");
    assert_eq!(KeyCode::Paste.label(), "Paste");
}

#[test]
fn parse_named_codes() {
    assert_eq!(KeyCode::parse("Quit"), Ok(KeyCode::Quit));
    assert_eq!(KeyCode::parse("Panes"), Ok(KeyCode::DisplayPanes));
    assert_eq!(KeyCode::parse("Cursor"), Ok(KeyCode::ShowCursor));
    assert_eq!(KeyCode::parse("Copy"), Ok(KeyCode::CopyMode));
    assert_eq!(KeyCode::parse("Paste"), Ok(KeyCode::Paste));
    assert_eq!(KeyCode::parse("S-"), Ok(KeyCode::Shift));
    assert_eq!(KeyCode::parse("C-"), Ok(KeyCode::Ctrl));
    assert_eq!(KeyCode::parse("M-"), Ok(KeyCode::Alt));
    assert_eq!(KeyCode::parse("Up"), Ok(KeyCode::Up));
    assert_eq!(KeyCode::parse("Down"), Ok(KeyCode::Down));
    assert_eq!(KeyCode::parse("Left"), Ok(KeyCode::Left));
    assert_eq!(KeyCode::parse("Right"), Ok(KeyCode::Right));
    assert_eq!(KeyCode::parse("Enter"), Ok(KeyCode::Enter));
    assert_eq!(KeyCode::parse("BSpace"), Ok(KeyCode::Backspace));
    assert_eq!(KeyCode::parse("Delete"), Ok(KeyCode::Delete));
    assert_eq!(KeyCode::parse("Tab"), Ok(KeyCode::Tab));
}

#[test]
fn parse_pane_indices() {
    assert_eq!(KeyCode::parse("Pane0"), Ok(KeyCode::SelectPane { index: 0 }));
    assert_eq!(KeyCode::parse("Pane13"), Ok(KeyCode::SelectPane { index: 13 }));
    // "Panes" is the pane display action, not a pane selection
    assert_eq!(KeyCode::parse("Panes"), Ok(KeyCode::DisplayPanes));
}

#[test]
fn parse_bad_pane_indices() {
    assert_eq!(KeyCode::parse("Pane"), Err(LayoutError::BadPaneIndex));
    assert_eq!(KeyCode::parse("PaneX"), Err(LayoutError::BadPaneIndex));
    assert_eq!(KeyCode::parse("Pane1x"), Err(LayoutError::BadPaneIndex));
    assert_eq!(
        KeyCode::parse("Pane99999999999999999999999999999999999"),
        Err(LayoutError::BadPaneIndex)
    );
}

#[test]
fn parse_single_characters() {
    assert_eq!(KeyCode::parse("a"), Ok(KeyCode::Char('a')));
    assert_eq!(KeyCode::parse("Z"), Ok(KeyCode::Char('Z')));
    assert_eq!(KeyCode::parse("7"), Ok(KeyCode::Char('7')));
    assert_eq!(KeyCode::parse("!"), Ok(KeyCode::Char('!')));
    assert_eq!(KeyCode::parse("~"), Ok(KeyCode::Char('~')));
    assert_eq!(KeyCode::parse(" "), Ok(KeyCode::Char(' ')));
}

#[test]
fn parse_rejects_unknown_codes() {
    assert_eq!(KeyCode::parse(""), Err(LayoutError::UnknownKeyCode));
    assert_eq!(KeyCode::parse("ab"), Err(LayoutError::UnknownKeyCode));
    assert_eq!(KeyCode::parse("enter"), Err(LayoutError::UnknownKeyCode));
    assert_eq!(KeyCode::parse("\u{7f}"), Err(LayoutError::UnknownKeyCode));
    assert_eq!(KeyCode::parse("\t"), Err(LayoutError::UnknownKeyCode));
}
