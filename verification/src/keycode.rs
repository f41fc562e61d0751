//! The closed set of key codes a key can carry, with the per-code flags
//! (modifier, control action, modifiable), the derived shifted form, the
//! canonical display label, and the parser for the textual key-code notation
//! used by layout descriptions.

use vstd::prelude::*;

use crate::layout::LayoutError;
use crate::text::{all_digits, dec_spec, dec_value, parse_decimal, push_char, str_eq, usize_to_string};

verus! {

/// A key code: a printable character, a modifier marker, a navigation or
/// editing key, or a multiplexer control action.
#[derive(Clone, Copy, Debug, PartialEq, Eq, Structural)]
pub enum KeyCode {
    Char(char),
    Shift,
    Ctrl,
    Alt,
    Up,
    Down,
    Left,
    Right,
    Enter,
    Backspace,
    Delete,
    Tab,
    Quit,
    DisplayPanes,
    SelectPane { index: usize },
    ShowCursor,
    CopyMode,
    Paste,
}

/// Whether a character may stand as a `Char` key code: the printable ASCII
/// range, space included.
pub open spec fn is_sendable_char(c: char) -> bool {
    32 <= c as int <= 126
}

/// The uppercase form of an ASCII lowercase letter; any other character is
/// left as it is.
pub open spec fn shift_char_spec(c: char) -> char {
    if 97 <= c as int <= 122 {
        (((c as u8) - 32) as char)
    } else {
        c
    }
}

impl KeyCode {
    /// Whether the code is a modifier marker.
    pub open spec fn spec_is_modifier(self) -> bool {
        self is Shift || self is Ctrl || self is Alt
    }

    /// Whether the code is a multiplexer control action.
    pub open spec fn spec_is_special(self) -> bool {
        self is Quit || self is DisplayPanes || self is SelectPane || self is ShowCursor
            || self is CopyMode || self is Paste
    }

    /// Whether the code accepts Ctrl/Alt prefixes: only characters and the
    /// arrow directions do.
    pub open spec fn spec_is_modifiable(self) -> bool {
        self is Char || self is Up || self is Down || self is Left || self is Right
    }

    /// The derived default shifted form: uppercase for letters, identity for
    /// every other code.
    pub open spec fn spec_default_shift_code(self) -> KeyCode {
        match self {
            KeyCode::Char(c) => KeyCode::Char(shift_char_spec(c)),
            other => other,
        }
    }

    /// The canonical display label of the code.
    pub open spec fn label_spec(self) -> Seq<char> {
        match self {
            KeyCode::Char(c) => seq![c],
            KeyCode::Shift => "S-"@,
            KeyCode::Ctrl => "C-"@,
            KeyCode::Alt => "M-"@,
            KeyCode::Up => "Up"@,
            KeyCode::Down => "Down"@,
            KeyCode::Left => "Left"@,
            KeyCode::Right => "Right"@,
            KeyCode::Enter => "Enter"@,
            KeyCode::Backspace => "BSpace"@,
            KeyCode::Delete => "Delete"@,
            KeyCode::Tab => "Tab"@,
            KeyCode::Quit => "Quit"@,
            KeyCode::DisplayPanes => "Panes"@,
            KeyCode::SelectPane { index } => "Pane"@ + dec_spec(index as int),
            KeyCode::ShowCursor => "Cursor"@,
            KeyCode::CopyMode => "Copy"@,
            KeyCode::Paste => "Paste"@,
        }
    }

    /// Modifier test.
    pub fn is_modifier(self) -> (r: bool)
        ensures
            r == self.spec_is_modifier(),
    {
        matches!(self, KeyCode::Shift | KeyCode::Ctrl | KeyCode::Alt)
    }

    /// Control-action test.
    pub fn is_special(self) -> (r: bool)
        ensures
            r == self.spec_is_special(),
    {
        matches!(
            self,
            KeyCode::Quit
            | KeyCode::DisplayPanes
            | KeyCode::SelectPane { .. }
            | KeyCode::ShowCursor
            | KeyCode::CopyMode
            | KeyCode::Paste
        )
    }

    /// Whether the code accepts Ctrl/Alt prefixes.
    pub fn is_modifiable(self) -> (r: bool)
        ensures
            r == self.spec_is_modifiable(),
    {
        matches!(
            self,
            KeyCode::Char(..) | KeyCode::Up | KeyCode::Down | KeyCode::Left | KeyCode::Right
        )
    }

    /// The derived default shifted form of the code.
    pub fn default_shift_code(self) -> (r: KeyCode)
        ensures
            r == self.spec_default_shift_code(),
    {
        match self {
            KeyCode::Char(c) => {
                let u = c as u32;
                if 97 <= u && u <= 122 {
                    KeyCode::Char(((c as u8) - 32) as char)
                } else {
                    KeyCode::Char(c)
                }
            },
            other => other,
        }
    }

    /// The canonical display label.
    pub fn label(self) -> (r: String)
        ensures
            r@ == self.label_spec(),
    {
        match self {
            KeyCode::Char(c) => {
                let mut s = String::new();
                push_char(&mut s, c);
                proof {
                    assert(s@ =~= seq![c]);
                }
                s
            },
            KeyCode::Shift => String::from_str("S-"),
            KeyCode::Ctrl => String::from_str("C-"),
            KeyCode::Alt => String::from_str("M-"),
            KeyCode::Up => String::from_str("Up"),
            KeyCode::Down => String::from_str("Down"),
            KeyCode::Left => String::from_str("Left"),
            KeyCode::Right => String::from_str("Right"),
            KeyCode::Enter => String::from_str("Enter"),
            KeyCode::Backspace => String::from_str("BSpace"),
            KeyCode::Delete => String::from_str("Delete"),
            KeyCode::Tab => String::from_str("Tab"),
            KeyCode::Quit => String::from_str("Quit"),
            KeyCode::DisplayPanes => String::from_str("Panes"),
            KeyCode::SelectPane { index } => {
                let mut s = String::from_str("Pane");
                let digits = usize_to_string(index);
                s.append(digits.as_str());
                s
            },
            KeyCode::ShowCursor => String::from_str("Cursor"),
            KeyCode::CopyMode => String::from_str("Copy"),
            KeyCode::Paste => String::from_str("Paste"),
        }
    }
}

/// What parsing a textual key-code name yields: the result is pinned down for
/// every character sequence.
pub open spec fn parse_key_code_spec(s: Seq<char>) -> Result<KeyCode, LayoutError> {
    if s == "Quit"@ {
        Ok(KeyCode::Quit)
    } else if s == "Panes"@ {
        Ok(KeyCode::DisplayPanes)
    } else if s.len() >= 4 && s.subrange(0, 4) == "Pane"@ {
        if s.len() > 4 && all_digits(s.skip(4)) && dec_value(s.skip(4)) <= usize::MAX as int {
            Ok(KeyCode::SelectPane { index: dec_value(s.skip(4)) as usize })
        } else {
            Err(LayoutError::BadPaneIndex)
        }
    } else if s == "Cursor"@ {
        Ok(KeyCode::ShowCursor)
    } else if s == "Copy"@ {
        Ok(KeyCode::CopyMode)
    } else if s == "Paste"@ {
        Ok(KeyCode::Paste)
    } else if s == "S-"@ {
        Ok(KeyCode::Shift)
    } else if s == "C-"@ {
        Ok(KeyCode::Ctrl)
    } else if s == "M-"@ {
        Ok(KeyCode::Alt)
    } else if s == "Up"@ {
        Ok(KeyCode::Up)
    } else if s == "Down"@ {
        Ok(KeyCode::Down)
    } else if s == "Left"@ {
        Ok(KeyCode::Left)
    } else if s == "Right"@ {
        Ok(KeyCode::Right)
    } else if s == "Enter"@ {
        Ok(KeyCode::Enter)
    } else if s == "BSpace"@ {
        Ok(KeyCode::Backspace)
    } else if s == "Delete"@ {
        Ok(KeyCode::Delete)
    } else if s == "Tab"@ {
        Ok(KeyCode::Tab)
    } else if s.len() == 1 && is_sendable_char(s[0]) {
        Ok(KeyCode::Char(s[0]))
    } else {
        Err(LayoutError::UnknownKeyCode)
    }
}

impl KeyCode {
    /// Parses the textual key-code notation used by layout descriptions.
    pub fn parse(s: &str) -> (r: Result<KeyCode, LayoutError>)
        ensures
            r == parse_key_code_spec(s@),
    {
        let len = s.unicode_len();
        if str_eq(s, "Quit") {
            return Ok(KeyCode::Quit);
        }
        if str_eq(s, "Panes") {
            return Ok(KeyCode::DisplayPanes);
        }
        if len >= 4 && str_prefix_pane(s) {
            let tail = s.substring_char(4, len);
            proof {
                assert(tail@ =~= s@.skip(4));
            }
            return match parse_decimal(tail) {
                Some(index) => Ok(KeyCode::SelectPane { index }),
                None => Err(LayoutError::BadPaneIndex),
            };
        }
        if str_eq(s, "Cursor") {
            return Ok(KeyCode::ShowCursor);
        }
        if str_eq(s, "Copy") {
            return Ok(KeyCode::CopyMode);
        }
        if str_eq(s, "Paste") {
            return Ok(KeyCode::Paste);
        }
        if str_eq(s, "S-") {
            return Ok(KeyCode::Shift);
        }
        if str_eq(s, "C-") {
            return Ok(KeyCode::Ctrl);
        }
        if str_eq(s, "M-") {
            return Ok(KeyCode::Alt);
        }
        if str_eq(s, "Up") {
            return Ok(KeyCode::Up);
        }
        if str_eq(s, "Down") {
            return Ok(KeyCode::Down);
        }
        if str_eq(s, "Left") {
            return Ok(KeyCode::Left);
        }
        if str_eq(s, "Right") {
            return Ok(KeyCode::Right);
        }
        if str_eq(s, "Enter") {
            return Ok(KeyCode::Enter);
        }
        if str_eq(s, "BSpace") {
            return Ok(KeyCode::Backspace);
        }
        if str_eq(s, "Delete") {
            return Ok(KeyCode::Delete);
        }
        if str_eq(s, "Tab") {
            return Ok(KeyCode::Tab);
        }
        if len == 1 {
            let c = s.get_char(0);
            let u = c as u32;
            if 32 <= u && u <= 126 {
                return Ok(KeyCode::Char(c));
            }
        }
        Err(LayoutError::UnknownKeyCode)
    }
}

/// Whether the first four characters of `s` spell out the pane-selection
/// prefix.
fn str_prefix_pane(s: &str) -> (r: bool)
    requires
        s@.len() >= 4,
    ensures
        r == (s@.subrange(0, 4) == "Pane"@),
{
    let p = "Pane";
    proof {
        reveal_strlit("Pane");
        assert(p@.len() == 4);
    }
    let mut i: usize = 0;
    while i < 4
        invariant
            s@.len() >= 4,
            p@ == "Pane"@,
            p@.len() == 4,
            i <= 4,
            forall|j: int| 0 <= j < i ==> s@[j] == p@[j],
        decreases 4 - i,
    {
        if s.get_char(i) != p.get_char(i) {
            proof {
                assert(s@.subrange(0, 4)[i as int] == s@[i as int]);
            }
            return false;
        }
        i += 1;
    }
    proof {
        assert(s@.subrange(0, 4) =~= p@);
    }
    true
}

} // verus!
