//! The per-key press state machine: sticky ("one-shot") modifier toggling,
//! normal-key press bookkeeping, control-action dispatch, and the composition
//! of the outgoing key sequence.
//!
//! A modifier in `OneshotActivated` does not yet count as active for the send
//! composed by the tap that consumes it: it is promoted to `Pressed` by that
//! tap and counts from the next tap on. The display, by contrast, already
//! anticipates the shifted labels while a Shift key is `OneshotActivated`.
//! This one-tap lag is deliberate and preserved exactly.

use vstd::prelude::*;

use crate::channel::ChannelCommand;
use crate::keycode::KeyCode;
use crate::layout::{Key, Layout};
use crate::text::{dec_spec, push_char, usize_to_string};

verus! {

/// The press state of one key.
#[derive(Clone, Copy, Debug, PartialEq, Eq, Structural)]
pub enum KeyPressState {
    Neutral,
    Activated,
    OneshotActivated,
    Pressed,
}

/// One key together with its mutable press state and, for control-action
/// keys, whether it targets the currently selected pane.
#[derive(Clone, Copy, Debug, PartialEq, Eq, Structural)]
pub struct KeyState {
    pub key: Key,
    pub press: KeyPressState,
    pub selected: bool,
}

impl KeyState {
    /// A fresh key state: neutral and unselected.
    pub fn new(key: Key) -> (s: KeyState)
        ensures
            s == (KeyState { key, press: KeyPressState::Neutral, selected: false }),
    {
        KeyState { key, press: KeyPressState::Neutral, selected: false }
    }
}

/// Clearing a transient press highlight: `Pressed` reverts to `Neutral`,
/// every other state stays.
pub open spec fn reset_pressed(p: KeyPressState) -> KeyPressState {
    if p is Pressed {
        KeyPressState::Neutral
    } else {
        p
    }
}

/// The sticky-modifier transition for a tap on the modifier itself: a first
/// tap arms the one-shot, a tap while armed locks it on, a tap while locked
/// releases it.
pub open spec fn modifier_next(p: KeyPressState) -> KeyPressState {
    match p {
        KeyPressState::Neutral | KeyPressState::Pressed => KeyPressState::OneshotActivated,
        KeyPressState::OneshotActivated => KeyPressState::Activated,
        KeyPressState::Activated => KeyPressState::Neutral,
    }
}

/// What a tap on a normal key does to every other key: a transient press
/// clears and an armed one-shot is consumed into `Pressed`.
pub open spec fn normal_step(p: KeyPressState) -> KeyPressState {
    match p {
        KeyPressState::Pressed => KeyPressState::Neutral,
        KeyPressState::OneshotActivated => KeyPressState::Pressed,
        other => other,
    }
}

/// The key state with its press state replaced.
pub open spec fn with_press(k: KeyState, p: KeyPressState) -> KeyState {
    KeyState { press: p, ..k }
}

/// All keys after clearing every transient press highlight.
pub open spec fn reset_tap(keys: Seq<KeyState>) -> Seq<KeyState> {
    keys.map(|j: int, k: KeyState| with_press(k, reset_pressed(k.press)))
}

/// All keys after a tap on the modifier key at `i`.
pub open spec fn modifier_tap(keys: Seq<KeyState>, i: int) -> Seq<KeyState> {
    keys.map(
        |j: int, k: KeyState|
            if j == i {
                with_press(k, modifier_next(k.press))
            } else {
                with_press(k, reset_pressed(k.press))
            },
    )
}

/// All keys after a tap on the normal key at `i`.
pub open spec fn normal_tap(keys: Seq<KeyState>, i: int) -> Seq<KeyState> {
    keys.map(
        |j: int, k: KeyState|
            if j == i {
                with_press(k, KeyPressState::Pressed)
            } else {
                with_press(k, normal_step(k.press))
            },
    )
}

/// All keys after a tap on the control-action key at `i`.
pub open spec fn special_tap(keys: Seq<KeyState>, i: int) -> Seq<KeyState> {
    keys.map(
        |j: int, k: KeyState|
            if j == i {
                with_press(k, KeyPressState::Pressed)
            } else {
                with_press(k, reset_pressed(k.press))
            },
    )
}

/// Whether the modifier with code `code` counts as active for composing a
/// send: some key with that code is `Pressed` or `Activated`. An armed
/// one-shot does not count yet.
pub open spec fn mod_active(keys: Seq<KeyState>, code: KeyCode) -> bool {
    exists|k: int|
        0 <= k < keys.len() && (#[trigger] keys[k]).key.code == code && (keys[k].press is Pressed
            || keys[k].press is Activated)
}

/// Whether the shifted labels are displayed: some Shift key is `Activated` or
/// `OneshotActivated`. This anticipates the shift one tap before `mod_active`
/// counts it for a send.
pub open spec fn shift_display_active(keys: Seq<KeyState>) -> bool {
    exists|k: int|
        0 <= k < keys.len() && (#[trigger] keys[k]).key.code is Shift && (
        keys[k].press is Activated || keys[k].press is OneshotActivated)
}

/// The outgoing key sequence for a key under the given modifier flags: the
/// shifted label when Shift is active, with `Ctrl-`/`Alt-` prefixes when the
/// code accepts them.
pub open spec fn compose_spec(key: Key, ctrl: bool, alt: bool, shift: bool) -> Seq<char> {
    let base = if shift {
        key.shift_code.label_spec()
    } else {
        key.code.label_spec()
    };
    if key.code.spec_is_modifiable() {
        (if ctrl {
            "Ctrl-"@
        } else {
            Seq::<char>::empty()
        }) + (if alt {
            "Alt-"@
        } else {
            Seq::<char>::empty()
        }) + base
    } else {
        base
    }
}

/// The sequence a tap on the key at `i` sends, composed from the pre-tap
/// state (the one-tap lag of the one-shot design).
pub open spec fn composed_send(keys: Seq<KeyState>, i: int) -> Seq<char> {
    compose_spec(
        keys[i].key,
        mod_active(keys, KeyCode::Ctrl),
        mod_active(keys, KeyCode::Alt),
        mod_active(keys, KeyCode::Shift),
    )
}

/// The pane-target argument of a multiplexer command.
pub open spec fn pane_arg(pane: int) -> Seq<char> {
    "."@ + dec_spec(pane)
}

/// What command a tap on a control-action key with code `code` yields while
/// `pane` is targeted: none for a quit (the session ends instead), a
/// housekeeping command for every other action.
pub open spec fn special_command_ok(code: KeyCode, pane: int, r: Option<ChannelCommand>) -> bool {
    match code {
        KeyCode::Quit => r is None,
        KeyCode::DisplayPanes => r is Some && r->0.name@ == "display-panes"@
            && r->0.args.deep_view() == Seq::<Seq<char>>::empty(),
        KeyCode::SelectPane { index } => r is Some && r->0.name@ == "select-pane"@
            && r->0.args.deep_view() == seq!["-t"@, pane_arg(index as int)],
        KeyCode::ShowCursor => r is Some && r->0.name@ == "select-pane"@
            && r->0.args.deep_view() == seq!["-t"@, pane_arg(pane)],
        KeyCode::CopyMode => r is Some && r->0.name@ == "copy-mode"@ && r->0.args.deep_view()
            == seq!["-t"@, pane_arg(pane)],
        KeyCode::Paste => r is Some && r->0.name@ == "paste-buffer"@ && r->0.args.deep_view()
            == seq!["-t"@, pane_arg(pane)],
        _ => false,
    }
}

/// The keyboard: all key states in layout order plus the index of the pane
/// commands currently target.
#[derive(Clone, Debug)]
pub struct Keyboard {
    pub keys: Vec<KeyState>,
    pub pane_index: usize,
}

fn pane_target(pane: usize) -> (t: String)
    ensures
        t@ == pane_arg(pane as int),
{
    let mut t = String::from_str(".");
    let digits = usize_to_string(pane);
    t.append(digits.as_str());
    t
}

impl Keyboard {
    /// A fresh keyboard over a built layout: every key neutral, the first
    /// pane targeted.
    pub fn new(layout: &Layout) -> (kb: Keyboard)
        ensures
            kb.keys@.len() == layout.keys@.len(),
            forall|i: int|
                0 <= i < layout.keys@.len() ==> kb.keys@[i] == (KeyState {
                    key: layout.keys@[i],
                    press: KeyPressState::Neutral,
                    selected: false,
                }),
            kb.pane_index == 0,
    {
        let n = layout.keys.len();
        let mut keys: Vec<KeyState> = Vec::new();
        let mut i: usize = 0;
        while i < n
            invariant
                n == layout.keys@.len(),
                i <= n,
                keys@.len() == i,
                forall|j: int|
                    0 <= j < i ==> keys@[j] == (KeyState {
                        key: layout.keys@[j],
                        press: KeyPressState::Neutral,
                        selected: false,
                    }),
            decreases n - i,
        {
            keys.push(KeyState::new(layout.keys[i]));
            i += 1;
        }
        Keyboard { keys, pane_index: 0 }
    }

    /// Clears every transient press highlight.
    pub fn reset_pressed_keys(&mut self)
        ensures
            final(self).keys@ == reset_tap(old(self).keys@),
            final(self).pane_index == old(self).pane_index,
    {
        let n = self.keys.len();
        let mut i: usize = 0;
        while i < n
            invariant
                n == self.keys@.len() == old(self).keys@.len(),
                i <= n,
                self.pane_index == old(self).pane_index,
                forall|j: int| 0 <= j < i ==> self.keys@[j] == reset_tap(old(self).keys@)[j],
                forall|j: int| i <= j < n ==> self.keys@[j] == old(self).keys@[j],
            decreases n - i,
        {
            let ks = self.keys[i];
            let np = match ks.press {
                KeyPressState::Pressed => KeyPressState::Neutral,
                other => other,
            };
            self.keys.set(i, KeyState { press: np, ..ks });
            i += 1;
        }
        proof {
            assert(self.keys@ =~= reset_tap(old(self).keys@));
        }
    }

    /// Whether some key with the given modifier code counts as active for a
    /// send.
    fn modifier_active(&self, code: KeyCode) -> (r: bool)
        ensures
            r == mod_active(self.keys@, code),
    {
        let n = self.keys.len();
        let mut i: usize = 0;
        while i < n
            invariant
                n == self.keys@.len(),
                i <= n,
                forall|j: int|
                    0 <= j < i ==> !((#[trigger] self.keys@[j]).key.code == code && (
                    self.keys@[j].press is Pressed || self.keys@[j].press is Activated)),
            decreases n - i,
        {
            let ks = self.keys[i];
            if ks.key.code == code && (matches!(ks.press, KeyPressState::Pressed)
                || matches!(ks.press, KeyPressState::Activated)) {
                return true;
            }
            i += 1;
        }
        false
    }

    /// Whether Ctrl is active for composing a send.
    pub fn is_ctrl_pressed(&self) -> (r: bool)
        ensures
            r == mod_active(self.keys@, KeyCode::Ctrl),
    {
        self.modifier_active(KeyCode::Ctrl)
    }

    /// Whether Alt is active for composing a send.
    pub fn is_alt_pressed(&self) -> (r: bool)
        ensures
            r == mod_active(self.keys@, KeyCode::Alt),
    {
        self.modifier_active(KeyCode::Alt)
    }

    /// Whether Shift is active for composing a send.
    pub fn is_shift_pressed(&self) -> (r: bool)
        ensures
            r == mod_active(self.keys@, KeyCode::Shift),
    {
        self.modifier_active(KeyCode::Shift)
    }

    /// Whether the shifted labels are displayed.
    pub fn shift_label_active(&self) -> (r: bool)
        ensures
            r == shift_display_active(self.keys@),
    {
        let n = self.keys.len();
        let mut i: usize = 0;
        while i < n
            invariant
                n == self.keys@.len(),
                i <= n,
                forall|j: int|
                    0 <= j < i ==> !((#[trigger] self.keys@[j]).key.code is Shift && (
                    self.keys@[j].press is Activated
                        || self.keys@[j].press is OneshotActivated)),
            decreases n - i,
        {
            let ks = self.keys[i];
            if matches!(ks.key.code, KeyCode::Shift) && (matches!(
                ks.press,
                KeyPressState::Activated,
            ) || matches!(ks.press, KeyPressState::OneshotActivated)) {
                return true;
            }
            i += 1;
        }
        false
    }

    /// A tap on the modifier key at `i`: every other key's transient press
    /// clears, the modifier steps through its sticky cycle.
    pub fn handle_modifier_key_pressed(&mut self, i: usize)
        requires
            i < old(self).keys@.len(),
            old(self).keys@[i as int].key.code.spec_is_modifier(),
        ensures
            final(self).keys@ == modifier_tap(old(self).keys@, i as int),
            final(self).pane_index == old(self).pane_index,
    {
        self.reset_pressed_keys();
        let ks = self.keys[i];
        let np = match ks.press {
            KeyPressState::Neutral => KeyPressState::OneshotActivated,
            KeyPressState::Pressed => KeyPressState::OneshotActivated,
            KeyPressState::Activated => KeyPressState::Neutral,
            KeyPressState::OneshotActivated => KeyPressState::Activated,
        };
        self.keys.set(i, KeyState { press: np, ..ks });
        proof {
            assert(self.keys@ =~= modifier_tap(old(self).keys@, i as int));
        }
    }

    /// The sequence a tap on the normal key at `i` would send, from the
    /// current (pre-tap) state.
    fn compose_send(&self, i: usize) -> (s: String)
        requires
            i < self.keys@.len(),
        ensures
            s@ == composed_send(self.keys@, i as int),
    {
        let ctrl = self.is_ctrl_pressed();
        let alt = self.is_alt_pressed();
        let shift = self.is_shift_pressed();
        let key = self.keys[i].key;
        let mut s = String::new();
        if key.code.is_modifiable() {
            if ctrl {
                s.append("Ctrl-");
            }
            if alt {
                s.append("Alt-");
            }
        }
        let label = if shift {
            key.shift_code.label()
        } else {
            key.code.label()
        };
        s.append(label.as_str());
        proof {
            assert(s@ =~= composed_send(self.keys@, i as int));
        }
        s
    }

    /// A tap on the normal key at `i`: transient presses clear, armed
    /// one-shots are consumed into `Pressed`, the key itself becomes
    /// `Pressed`, and the send composed from the pre-tap state goes to the
    /// targeted pane.
    pub fn handle_normal_key_pressed(&mut self, i: usize) -> (cmd: ChannelCommand)
        requires
            i < old(self).keys@.len(),
            !old(self).keys@[i as int].key.code.spec_is_modifier(),
            !old(self).keys@[i as int].key.code.spec_is_special(),
        ensures
            final(self).keys@ == normal_tap(old(self).keys@, i as int),
            final(self).pane_index == old(self).pane_index,
            cmd.name@ == "send-keys"@,
            cmd.args.deep_view() == seq![
                "-t"@,
                pane_arg(old(self).pane_index as int),
                composed_send(old(self).keys@, i as int),
            ],
    {
        let key_string = self.compose_send(i);
        let n = self.keys.len();
        let mut j: usize = 0;
        while j < n
            invariant
                n == self.keys@.len() == old(self).keys@.len(),
                j <= n,
                self.pane_index == old(self).pane_index,
                forall|k: int|
                    0 <= k < j ==> self.keys@[k] == with_press(
                        old(self).keys@[k],
                        normal_step(old(self).keys@[k].press),
                    ),
                forall|k: int| j <= k < n ==> self.keys@[k] == old(self).keys@[k],
            decreases n - j,
        {
            let ks = self.keys[j];
            let np = match ks.press {
                KeyPressState::Pressed => KeyPressState::Neutral,
                KeyPressState::OneshotActivated => KeyPressState::Pressed,
                other => other,
            };
            self.keys.set(j, KeyState { press: np, ..ks });
            j += 1;
        }
        let ks = self.keys[i];
        self.keys.set(i, KeyState { press: KeyPressState::Pressed, ..ks });
        proof {
            assert(self.keys@ =~= normal_tap(old(self).keys@, i as int));
        }
        let target = pane_target(self.pane_index);
        let mut args: Vec<String> = Vec::new();
        args.push(String::from_str("-t"));
        args.push(target);
        args.push(key_string);
        let cmd = ChannelCommand { name: String::from_str("send-keys"), args };
        proof {
            assert(cmd.args.deep_view() =~= seq![
                "-t"@,
                pane_arg(old(self).pane_index as int),
                composed_send(old(self).keys@, i as int),
            ]);
        }
        cmd
    }

    /// A tap on the control-action key at `i`: transient presses clear, the
    /// key becomes `Pressed`, and the action's command is returned. A quit
    /// action returns no command: it ends the session. A pane selection
    /// retargets later commands.
    pub fn handle_special_key_pressed(&mut self, i: usize) -> (r: Option<ChannelCommand>)
        requires
            i < old(self).keys@.len(),
            old(self).keys@[i as int].key.code.spec_is_special(),
        ensures
            final(self).keys@ == special_tap(old(self).keys@, i as int),
            final(self).pane_index == (match old(self).keys@[i as int].key.code {
                KeyCode::SelectPane { index } => index,
                _ => old(self).pane_index,
            }),
            special_command_ok(
                old(self).keys@[i as int].key.code,
                old(self).pane_index as int,
                r,
            ),
    {
        self.reset_pressed_keys();
        let ks = self.keys[i];
        self.keys.set(i, KeyState { press: KeyPressState::Pressed, ..ks });
        proof {
            assert(self.keys@ =~= special_tap(old(self).keys@, i as int));
        }
        match ks.key.code {
            KeyCode::Quit => None,
            KeyCode::DisplayPanes => {
                let args: Vec<String> = Vec::new();
                let cmd = ChannelCommand { name: String::from_str("display-panes"), args };
                proof {
                    assert(cmd.args.deep_view() =~= Seq::<Seq<char>>::empty());
                }
                Some(cmd)
            },
            KeyCode::SelectPane { index } => {
                self.pane_index = index;
                let mut args: Vec<String> = Vec::new();
                args.push(String::from_str("-t"));
                args.push(pane_target(index));
                let cmd = ChannelCommand { name: String::from_str("select-pane"), args };
                proof {
                    assert(cmd.args.deep_view() =~= seq!["-t"@, pane_arg(index as int)]);
                }
                Some(cmd)
            },
            KeyCode::ShowCursor => Some(self.show_cursor_command()),
            KeyCode::CopyMode => {
                let mut args: Vec<String> = Vec::new();
                args.push(String::from_str("-t"));
                args.push(pane_target(self.pane_index));
                let cmd = ChannelCommand { name: String::from_str("copy-mode"), args };
                proof {
                    assert(cmd.args.deep_view() =~= seq![
                        "-t"@,
                        pane_arg(old(self).pane_index as int),
                    ]);
                }
                Some(cmd)
            },
            KeyCode::Paste => {
                let mut args: Vec<String> = Vec::new();
                args.push(String::from_str("-t"));
                args.push(pane_target(self.pane_index));
                let cmd = ChannelCommand { name: String::from_str("paste-buffer"), args };
                proof {
                    assert(cmd.args.deep_view() =~= seq![
                        "-t"@,
                        pane_arg(old(self).pane_index as int),
                    ]);
                }
                Some(cmd)
            },
            _ => None,
        }
    }

    /// The command that keeps the targeted pane's cursor visible: what a tap
    /// on a show-cursor key runs, and what the host's periodic idle timer
    /// runs on its own.
    pub fn show_cursor_command(&self) -> (cmd: ChannelCommand)
        ensures
            cmd.name@ == "select-pane"@,
            cmd.args.deep_view() == seq!["-t"@, pane_arg(self.pane_index as int)],
    {
        let mut args: Vec<String> = Vec::new();
        args.push(String::from_str("-t"));
        args.push(pane_target(self.pane_index));
        let cmd = ChannelCommand { name: String::from_str("select-pane"), args };
        proof {
            assert(cmd.args.deep_view() =~= seq!["-t"@, pane_arg(self.pane_index as int)]);
        }
        cmd
    }

    /// Marks exactly the pane-selection keys that target the current pane as
    /// selected, leaving every other field alone.
    pub fn update_selected(&mut self)
        ensures
            final(self).keys@.len() == old(self).keys@.len(),
            final(self).pane_index == old(self).pane_index,
            forall|j: int|
                0 <= j < old(self).keys@.len() ==> final(self).keys@[j] == (KeyState {
                    selected: match old(self).keys@[j].key.code {
                        KeyCode::SelectPane { index } => index == old(self).pane_index,
                        _ => old(self).keys@[j].selected,
                    },
                    ..old(self).keys@[j]
                }),
    {
        let n = self.keys.len();
        let mut i: usize = 0;
        while i < n
            invariant
                n == self.keys@.len() == old(self).keys@.len(),
                i <= n,
                self.pane_index == old(self).pane_index,
                forall|j: int|
                    0 <= j < i ==> self.keys@[j] == (KeyState {
                        selected: match old(self).keys@[j].key.code {
                            KeyCode::SelectPane { index } => index == old(self).pane_index,
                            _ => old(self).keys@[j].selected,
                        },
                        ..old(self).keys@[j]
                    }),
                forall|j: int| i <= j < n ==> self.keys@[j] == old(self).keys@[j],
            decreases n - i,
        {
            let ks = self.keys[i];
            if let KeyCode::SelectPane { index } = ks.key.code {
                self.keys.set(i, KeyState { selected: index == self.pane_index, ..ks });
            }
            i += 1;
        }
    }
}

/// The sticky-modifier tap cycle has period three: from any state a tap can
/// find a modifier in, three taps return it to where it started, passing
/// through armed (`OneshotActivated`) and locked (`Activated`).
pub proof fn lemma_modifier_tap_cycle(p: KeyPressState)
    requires
        !(p is Pressed),
    ensures
        modifier_next(modifier_next(modifier_next(p))) == p,
        modifier_next(KeyPressState::Neutral) == KeyPressState::OneshotActivated,
        modifier_next(KeyPressState::OneshotActivated) == KeyPressState::Activated,
        modifier_next(KeyPressState::Activated) == KeyPressState::Neutral,
{
}

/// Three taps on one fresh modifier key walk it through armed, locked and
/// back to neutral, whichever key of the keyboard it is.
pub proof fn lemma_modifier_three_tap_cycle(keys: Seq<KeyState>, i: int)
    requires
        0 <= i < keys.len(),
        keys[i].press is Neutral,
    ensures
        modifier_tap(keys, i)[i].press is OneshotActivated,
        modifier_tap(modifier_tap(keys, i), i)[i].press is Activated,
        modifier_tap(modifier_tap(modifier_tap(keys, i), i), i)[i].press is Neutral,
{
}

/// The one-tap lag between display and send: while a Shift key is armed
/// (`OneshotActivated`) and no Shift key is locked on or lingering, the
/// shifted labels are already displayed, yet the send composed by the very
/// next tap still uses the unshifted code.
pub proof fn lemma_one_tap_lag(keys: Seq<KeyState>, m: int, i: int)
    requires
        0 <= m < keys.len(),
        0 <= i < keys.len(),
        keys[m].key.code is Shift,
        keys[m].press is OneshotActivated,
        !mod_active(keys, KeyCode::Shift),
    ensures
        shift_display_active(keys),
        composed_send(keys, i) == compose_spec(
            keys[i].key,
            mod_active(keys, KeyCode::Ctrl),
            mod_active(keys, KeyCode::Alt),
            false,
        ),
{
    assert(shift_display_active(keys)) by {
        assert(keys[m].key.code is Shift && keys[m].press is OneshotActivated);
    }
}

/// A consumed one-shot lingers for one frame: after a modifier reaches
/// `OneshotActivated` and a non-modifier key is tapped, the modifier is
/// `Pressed`, and only the next non-modifier tap returns it to `Neutral`.
pub proof fn lemma_oneshot_consumed_then_released(keys: Seq<KeyState>, m: int, i: int, j: int)
    requires
        0 <= m < keys.len(),
        0 <= i < keys.len(),
        0 <= j < keys.len(),
        m != i,
        m != j,
        keys[m].press is OneshotActivated,
    ensures
        normal_tap(keys, i)[m].press is Pressed,
        normal_tap(normal_tap(keys, i), j)[m].press is Neutral,
{
}

} // verus!
