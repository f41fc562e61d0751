use tuke::keycode::KeyCode;
use tuke::layout::{Directive, Layout};
use tuke::state::{KeyPressState, Keyboard};

const CTRL: usize = 0;
const SHIFT: usize = 1;
const ALT: usize = 2;
const KEY_A: usize = 3;
const KEY_B: usize = 4;
const ENTER: usize = 5;
const QUIT: usize = 6;
const PANES: usize = 7;
const PANE1: usize = 8;
const CURSOR: usize = 9;
const COPY: usize = 10;
const PASTE: usize = 11;

fn keyboard() -> Keyboard {
    let codes = [
        KeyCode::Ctrl,
        KeyCode::Shift,
        KeyCode::Alt,
        KeyCode::Char('a'),
        KeyCode::Char('b'),
        KeyCode::Enter,
        KeyCode::Quit,
        KeyCode::DisplayPanes,
        KeyCode::SelectPane { index: 1 },
        KeyCode::ShowCursor,
        KeyCode::CopyMode,
        KeyCode::Paste,
    ];
    let ds: Vec<Directive> = codes
        .iter()
        .map(|&code| Directive::Key { code, shift_code: None, size: None })
        .collect();
    Keyboard::new(&Layout::build(&ds).unwrap())
}

#[test]
fn fresh_keyboard_is_neutral() {
    let kb = keyboard();
    assert_eq!(kb.pane_index, 0);
    for ks in &kb.keys {
        assert_eq!(ks.press, KeyPressState::Neutral);
        assert!(!ks.selected);
    }
}

#[test]
fn modifier_three_tap_cycle() {
    let mut kb = keyboard();
    kb.handle_modifier_key_pressed(CTRL);
    assert_eq!(kb.keys[CTRL].press, KeyPressState::OneshotActivated);
    kb.handle_modifier_key_pressed(CTRL);
    assert_eq!(kb.keys[CTRL].press, KeyPressState::Activated);
    kb.handle_modifier_key_pressed(CTRL);
    assert_eq!(kb.keys[CTRL].press, KeyPressState::Neutral);
}

#[test]
fn modifier_cycle_holds_for_every_modifier_key() {
    for m in [CTRL, SHIFT, ALT] {
        let mut kb = keyboard();
        kb.handle_modifier_key_pressed(m);
        assert_eq!(kb.keys[m].press, KeyPressState::OneshotActivated);
        kb.handle_modifier_key_pressed(m);
        assert_eq!(kb.keys[m].press, KeyPressState::Activated);
        kb.handle_modifier_key_pressed(m);
        assert_eq!(kb.keys[m].press, KeyPressState::Neutral);
    }
}

#[test]
fn modifier_tap_clears_other_pressed_keys() {
    let mut kb = keyboard();
    kb.handle_normal_key_pressed(KEY_A);
    assert_eq!(kb.keys[KEY_A].press, KeyPressState::Pressed);
    kb.handle_modifier_key_pressed(CTRL);
    assert_eq!(kb.keys[KEY_A].press, KeyPressState::Neutral);
}

#[test]
fn oneshot_is_consumed_then_released() {
    let mut kb = keyboard();
    kb.handle_modifier_key_pressed(CTRL);
    assert_eq!(kb.keys[CTRL].press, KeyPressState::OneshotActivated);
    kb.handle_normal_key_pressed(KEY_A);
    // the one-shot lingers as Pressed for one more frame
    assert_eq!(kb.keys[CTRL].press, KeyPressState::Pressed);
    kb.handle_normal_key_pressed(KEY_B);
    assert_eq!(kb.keys[CTRL].press, KeyPressState::Neutral);
}

#[test]
fn compose_with_ctrl_activated() {
    let mut kb = keyboard();
    kb.handle_modifier_key_pressed(CTRL);
    kb.handle_modifier_key_pressed(CTRL);
    assert_eq!(kb.keys[CTRL].press, KeyPressState::Activated);
    assert!(kb.is_ctrl_pressed());
    assert!(!kb.is_shift_pressed());
    let cmd = kb.handle_normal_key_pressed(KEY_A);
    assert_eq!(cmd.name, "send-keys");
    assert_eq!(cmd.args, vec!["-t", ".0", "Ctrl-a"]);
}

#[test]
fn oneshot_shift_shows_shifted_label_but_sends_lowercase() {
    let mut kb = keyboard();
    kb.handle_modifier_key_pressed(SHIFT);
    assert_eq!(kb.keys[SHIFT].press, KeyPressState::OneshotActivated);
    // the display already anticipates the shifted labels
    assert!(kb.shift_label_active());
    // but the one-shot does not count for this send yet
    assert!(!kb.is_shift_pressed());
    let cmd = kb.handle_normal_key_pressed(KEY_A);
    assert_eq!(cmd.args[2], "a");
    // from the next tap on, the consumed one-shot counts
    assert!(kb.is_shift_pressed());
    let cmd = kb.handle_normal_key_pressed(KEY_B);
    assert_eq!(cmd.args[2], "B");
}

#[test]
fn shift_activated_substitutes_the_shifted_code() {
    let mut kb = keyboard();
    kb.handle_modifier_key_pressed(SHIFT);
    kb.handle_modifier_key_pressed(SHIFT);
    assert_eq!(kb.keys[SHIFT].press, KeyPressState::Activated);
    let cmd = kb.handle_normal_key_pressed(KEY_A);
    assert_eq!(cmd.args[2], "A");
}

#[test]
fn ctrl_and_alt_prefix_in_order() {
    let mut kb = keyboard();
    kb.handle_modifier_key_pressed(CTRL);
    kb.handle_modifier_key_pressed(CTRL);
    kb.handle_modifier_key_pressed(ALT);
    kb.handle_modifier_key_pressed(ALT);
    let cmd = kb.handle_normal_key_pressed(KEY_A);
    assert_eq!(cmd.args[2], "Ctrl-Alt-a");
}

#[test]
fn unmodifiable_codes_take_no_prefix() {
    let mut kb = keyboard();
    kb.handle_modifier_key_pressed(CTRL);
    kb.handle_modifier_key_pressed(CTRL);
    let cmd = kb.handle_normal_key_pressed(ENTER);
    assert_eq!(cmd.args[2], "Enter");
}

#[test]
fn normal_tap_marks_the_key_pressed() {
    let mut kb = keyboard();
    kb.handle_normal_key_pressed(KEY_A);
    assert_eq!(kb.keys[KEY_A].press, KeyPressState::Pressed);
    kb.handle_normal_key_pressed(KEY_B);
    assert_eq!(kb.keys[KEY_A].press, KeyPressState::Neutral);
    assert_eq!(kb.keys[KEY_B].press, KeyPressState::Pressed);
}

#[test]
fn activated_modifier_stays_active_across_sends() {
    let mut kb = keyboard();
    kb.handle_modifier_key_pressed(CTRL);
    kb.handle_modifier_key_pressed(CTRL);
    let cmd = kb.handle_normal_key_pressed(KEY_A);
    assert_eq!(cmd.args[2], "Ctrl-a");
    let cmd = kb.handle_normal_key_pressed(KEY_B);
    assert_eq!(cmd.args[2], "Ctrl-b");
    assert_eq!(kb.keys[CTRL].press, KeyPressState::Activated);
}

#[test]
fn quit_key_returns_no_command() {
    let mut kb = keyboard();
    let cmd = kb.handle_special_key_pressed(QUIT);
    assert!(cmd.is_none());
    assert_eq!(kb.keys[QUIT].press, KeyPressState::Pressed);
}

#[test]
fn display_panes_command() {
    let mut kb = keyboard();
    let cmd = kb.handle_special_key_pressed(PANES).unwrap();
    assert_eq!(cmd.name, "display-panes");
    assert!(cmd.args.is_empty());
}

#[test]
fn select_pane_retargets_commands() {
    let mut kb = keyboard();
    let cmd = kb.handle_special_key_pressed(PANE1).unwrap();
    assert_eq!(cmd.name, "select-pane");
    assert_eq!(cmd.args, vec!["-t", ".1"]);
    assert_eq!(kb.pane_index, 1);
    // later sends go to the selected pane
    let cmd = kb.handle_normal_key_pressed(KEY_A);
    assert_eq!(cmd.args, vec!["-t", ".1", "a"]);
}

#[test]
fn cursor_copy_paste_target_the_current_pane() {
    let mut kb = keyboard();
    kb.handle_special_key_pressed(PANE1);
    let cmd = kb.handle_special_key_pressed(CURSOR).unwrap();
    assert_eq!(cmd.name, "select-pane");
    assert_eq!(cmd.args, vec!["-t", ".1"]);
    let cmd = kb.handle_special_key_pressed(COPY).unwrap();
    assert_eq!(cmd.name, "copy-mode");
    assert_eq!(cmd.args, vec!["-t", ".1"]);
    let cmd = kb.handle_special_key_pressed(PASTE).unwrap();
    assert_eq!(cmd.name, "paste-buffer");
    assert_eq!(cmd.args, vec!["-t", ".1"]);
}

#[test]
fn special_tap_clears_other_pressed_keys() {
    let mut kb = keyboard();
    kb.handle_normal_key_pressed(KEY_A);
    kb.handle_special_key_pressed(PANES);
    assert_eq!(kb.keys[KEY_A].press, KeyPressState::Neutral);
    assert_eq!(kb.keys[PANES].press, KeyPressState::Pressed);
}

#[test]
fn special_tap_does_not_consume_a_oneshot() {
    let mut kb = keyboard();
    kb.handle_modifier_key_pressed(CTRL);
    kb.handle_special_key_pressed(PANES);
    assert_eq!(kb.keys[CTRL].press, KeyPressState::OneshotActivated);
}

#[test]
fn reset_pressed_keys_touches_only_pressed() {
    let mut kb = keyboard();
    kb.handle_modifier_key_pressed(CTRL);
    kb.handle_modifier_key_pressed(SHIFT);
    kb.handle_modifier_key_pressed(SHIFT);
    kb.handle_normal_key_pressed(KEY_A);
    // the consumed one-shot lingers as Pressed until the next reset
    assert_eq!(kb.keys[CTRL].press, KeyPressState::Pressed);
    kb.reset_pressed_keys();
    assert_eq!(kb.keys[KEY_A].press, KeyPressState::Neutral);
    assert_eq!(kb.keys[CTRL].press, KeyPressState::Neutral);
    assert_eq!(kb.keys[SHIFT].press, KeyPressState::Activated);
}

#[test]
fn update_selected_marks_the_targeted_pane_key() {
    let mut kb = keyboard();
    kb.update_selected();
    assert!(!kb.keys[PANE1].selected);
    kb.handle_special_key_pressed(PANE1);
    kb.update_selected();
    assert!(kb.keys[PANE1].selected);
    for (i, ks) in kb.keys.iter().enumerate() {
        if i != PANE1 {
            assert!(!ks.selected);
        }
    }
}

#[test]
fn oneshot_does_not_count_as_active() {
    let mut kb = keyboard();
    kb.handle_modifier_key_pressed(CTRL);
    assert_eq!(kb.keys[CTRL].press, KeyPressState::OneshotActivated);
    assert!(!kb.is_ctrl_pressed());
    assert!(!kb.is_alt_pressed());
    assert!(!kb.is_shift_pressed());
}
