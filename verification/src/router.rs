//! The input router: a raw input event becomes state-machine transitions and,
//! for normal keys, a composed key sequence to transmit.
//!
//! Mouse positions arrive in absolute terminal coordinates; the router
//! translates them into layout-local coordinates by subtracting the centering
//! offset, hit-tests the keys in layout order (first match wins), and
//! dispatches to the class of the hit key. Only a left-button release
//! commits; every other mouse event leaves the state untouched.

use vstd::prelude::*;

use crate::channel::ChannelCommand;
use crate::geometry::Position;
use crate::keycode::KeyCode;
use crate::state::{
    modifier_tap, normal_tap, special_tap, composed_send, pane_arg, special_command_ok, KeyState,
    Keyboard,
};

verus! {

/// The shape of a mouse event: only a left-button release commits a tap.
#[derive(Clone, Copy, Debug, PartialEq, Eq, Structural)]
pub enum MouseKind {
    LeftRelease,
    Other,
}

/// A raw input event delivered by the host's terminal abstraction.
#[derive(Clone, Copy, Debug, PartialEq, Eq, Structural)]
pub enum Event {
    /// A key typed on the physical keyboard: its character, if it has one,
    /// and whether Ctrl was held.
    Key { ch: Option<char>, ctrl: bool },
    /// A mouse event at an absolute terminal position.
    Mouse { kind: MouseKind, position: Position },
}

/// What the router asks the host to do.
#[derive(Clone, Debug)]
pub enum OutgoingCommand {
    /// End the session.
    Terminate,
    /// Run this housekeeping command over the multiplexer channel.
    Control(ChannelCommand),
    /// Send a key sequence to the targeted pane: the channel command to run,
    /// and the composed sequence itself for the preview history.
    Send { command: ChannelCommand, composed: String },
}

/// Whether a typed key ends the session: a plain `q` or Ctrl-`c`.
pub open spec fn quit_combo(ch: Option<char>, ctrl: bool) -> bool {
    ch == Some('q') || (ctrl && ch == Some('c'))
}

/// The layout-local position of an absolute position under a centering
/// offset, or nothing when the position lies above or left of the layout.
pub open spec fn local_of(p: Position, offset: Position) -> Option<Position> {
    if p.row >= offset.row && p.col >= offset.col {
        Some(Position { row: (p.row - offset.row) as usize, col: (p.col - offset.col) as usize })
    } else {
        None
    }
}

/// The first key in layout order whose rectangle holds the position.
pub open spec fn first_hit(keys: Seq<KeyState>, p: Position) -> Option<int>
    decreases keys.len(),
{
    if keys.len() == 0 {
        None
    } else if keys[0].key.region.spec_contains(p) {
        Some(0int)
    } else {
        match first_hit(keys.skip(1), p) {
            Some(i) => Some(i + 1),
            None => None,
        }
    }
}

/// A position inside exactly one key's rectangle hits that key and no other.
pub proof fn lemma_hit_unique(keys: Seq<KeyState>, p: Position, i: int)
    requires
        0 <= i < keys.len(),
        keys[i].key.region.spec_contains(p),
        forall|j: int|
            0 <= j < keys.len() && j != i ==> !(#[trigger] keys[j]).key.region.spec_contains(p),
    ensures
        first_hit(keys, p) == Some(i),
{
    lemma_hit_prefix(keys, p, i);
}

/// A position outside every key's rectangle hits nothing.
pub proof fn lemma_hit_none(keys: Seq<KeyState>, p: Position)
    requires
        forall|j: int| 0 <= j < keys.len() ==> !(#[trigger] keys[j]).key.region.spec_contains(p),
    ensures
        first_hit(keys, p) is None,
    decreases keys.len(),
{
    if keys.len() > 0 {
        assert(forall|j: int|
            0 <= j < keys.skip(1).len() ==> keys.skip(1)[j] == #[trigger] keys[j + 1]);
        lemma_hit_none(keys.skip(1), p);
    }
}

/// What a committed tap on the key at `i` does to the keyboard and what it
/// returns: control actions run their command (quit terminates), a modifier
/// steps its sticky cycle silently, and a normal key sends its composed
/// sequence to the targeted pane.
pub open spec fn dispatch_hit_post(
    pre: Keyboard,
    post: Keyboard,
    r: Option<OutgoingCommand>,
    i: int,
) -> bool {
    let code = pre.keys@[i].key.code;
    if code.spec_is_special() {
        &&& post.keys@ == special_tap(pre.keys@, i)
        &&& post.pane_index == (match code {
            KeyCode::SelectPane { index } => index,
            _ => pre.pane_index,
        })
        &&& if code is Quit {
            r == Some(OutgoingCommand::Terminate)
        } else {
            r matches Some(OutgoingCommand::Control(cmd)) && special_command_ok(
                code,
                pre.pane_index as int,
                Some(cmd),
            )
        }
    } else if code.spec_is_modifier() {
        &&& post.keys@ == modifier_tap(pre.keys@, i)
        &&& post.pane_index == pre.pane_index
        &&& r is None
    } else {
        &&& post.keys@ == normal_tap(pre.keys@, i)
        &&& post.pane_index == pre.pane_index
        &&& r matches Some(OutgoingCommand::Send { command, composed })
            && command.name@ == "send-keys"@
            && command.args.deep_view() == seq![
            "-t"@,
            pane_arg(pre.pane_index as int),
            composed_send(pre.keys@, i),
        ]
            && composed@ == composed_send(pre.keys@, i)
    }
}

impl Keyboard {
    /// The first key in layout order whose rectangle holds the position.
    pub fn hit_test(&self, p: Position) -> (r: Option<usize>)
        ensures
            r is Some <==> first_hit(self.keys@, p) is Some,
            r is Some ==> r->0 as int == first_hit(self.keys@, p)->0 && r->0
                < self.keys@.len(),
    {
        let n = self.keys.len();
        let mut i: usize = 0;
        while i < n
            invariant
                n == self.keys@.len(),
                i <= n,
                forall|j: int|
                    0 <= j < i ==> !(#[trigger] self.keys@[j]).key.region.spec_contains(p),
            decreases n - i,
        {
            if self.keys[i].key.region.contains(p) {
                proof {
                    lemma_hit_prefix(self.keys@, p, i as int);
                }
                return Some(i);
            }
            i += 1;
        }
        proof {
            lemma_hit_none(self.keys@, p);
        }
        None
    }

    /// Routes one raw input event.
    ///
    /// A typed quit combination asks for termination. A left-button release
    /// translates the position into layout coordinates, hit-tests the keys in
    /// order and dispatches to the hit key's class; everything else, and a
    /// release that hits nothing, changes nothing and returns nothing.
    pub fn dispatch(&mut self, event: &Event, offset: Position) -> (r: Option<OutgoingCommand>)
        ensures
            match *event {
                Event::Key { ch, ctrl } => *final(self) == *old(self) && (if quit_combo(ch, ctrl) {
                    r == Some(OutgoingCommand::Terminate)
                } else {
                    r is None
                }),
                Event::Mouse { kind, position } => {
                    if !(kind is LeftRelease) {
                        *final(self) == *old(self) && r is None
                    } else {
                        match local_of(position, offset) {
                            None => *final(self) == *old(self) && r is None,
                            Some(local) => match first_hit(old(self).keys@, local) {
                                None => *final(self) == *old(self) && r is None,
                                Some(i) => dispatch_hit_post(*old(self), *final(self), r, i),
                            },
                        }
                    }
                },
            },
    {
        match *event {
            Event::Key { ch, ctrl } => {
                let quit = match ch {
                    Some(c) => c == 'q' || (ctrl && c == 'c'),
                    None => false,
                };
                if quit {
                    Some(OutgoingCommand::Terminate)
                } else {
                    None
                }
            },
            Event::Mouse { kind, position } => {
                if !matches!(kind, MouseKind::LeftRelease) {
                    return None;
                }
                if position.row < offset.row || position.col < offset.col {
                    return None;
                }
                let local = Position {
                    row: position.row - offset.row,
                    col: position.col - offset.col,
                };
                let hit = self.hit_test(local);
                let i = match hit {
                    Some(i) => i,
                    None => {
                        return None;
                    },
                };
                let code = self.keys[i].key.code;
                if code.is_special() {
                    let cmd = self.handle_special_key_pressed(i);
                    if matches!(code, KeyCode::Quit) {
                        Some(OutgoingCommand::Terminate)
                    } else {
                        match cmd {
                            Some(c) => Some(OutgoingCommand::Control(c)),
                            None => {
                                proof {
                                    assert(false);
                                }
                                None
                            },
                        }
                    }
                } else if code.is_modifier() {
                    self.handle_modifier_key_pressed(i);
                    None
                } else {
                    let cmd = self.handle_normal_key_pressed(i);
                    proof {
                        assert(cmd.args@.len() == 3) by {
                            assert(cmd.args.deep_view().len() == 3);
                        }
                    }
                    let composed = cmd.args[2].clone();
                    Some(OutgoingCommand::Send { command: cmd, composed })
                }
            },
        }
    }
}

/// When every key before `i` misses the position and the key at `i` holds
/// it, `i` is the first hit.
proof fn lemma_hit_prefix(keys: Seq<KeyState>, p: Position, i: int)
    requires
        0 <= i < keys.len(),
        keys[i].key.region.spec_contains(p),
        forall|j: int| 0 <= j < i ==> !(#[trigger] keys[j]).key.region.spec_contains(p),
    ensures
        first_hit(keys, p) == Some(i),
    decreases keys.len(),
{
    if i == 0 {
    } else {
        assert(!keys[0].key.region.spec_contains(p));
        assert(forall|j: int|
            0 <= j < keys.skip(1).len() ==> keys.skip(1)[j] == #[trigger] keys[j + 1]);
        lemma_hit_prefix(keys.skip(1), p, i - 1);
    }
}

} // verus!
