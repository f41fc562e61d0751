//! The preview strip's in-memory history of recently sent key sequences,
//! bounded by a collapsing rule: identical consecutive chords collapse into
//! one counted indicator, plain characters roll through a visible buffer no
//! wider than the strip, and switching between the two modes clears what was
//! buffered.

use vstd::prelude::*;

use crate::geometry::Region;
use crate::text::{dec_spec, push_char, usize_to_string};

verus! {

/// What the preview strip remembers.
#[derive(Clone, Debug)]
pub enum PreviewHistory {
    /// Nothing sent yet.
    Empty,
    /// The last sends were one identical chord, `count` times in a row.
    Chord { chord: Vec<char>, count: usize },
    /// The last sends were plain characters; the tail that fits the strip.
    Visible { buffer: Vec<char> },
}

/// The preview strip: its one-row region and its history.
#[derive(Clone, Debug)]
pub struct Preview {
    pub region: Region,
    pub history: PreviewHistory,
}

/// The integer image of a history.
pub ghost enum HistoryModel {
    Empty,
    Chord { chord: Seq<char>, count: int },
    Visible { buffer: Seq<char> },
}

/// The image of a concrete history.
pub open spec fn history_model(h: PreviewHistory) -> HistoryModel {
    match h {
        PreviewHistory::Empty => HistoryModel::Empty,
        PreviewHistory::Chord { chord, count } => HistoryModel::Chord {
            chord: chord@,
            count: count as int,
        },
        PreviewHistory::Visible { buffer } => HistoryModel::Visible { buffer: buffer@ },
    }
}

/// The last `cap` characters of a sequence.
pub open spec fn tail_of(s: Seq<char>, cap: int) -> Seq<char> {
    if s.len() <= cap {
        s
    } else {
        s.skip(s.len() - cap)
    }
}

/// Whether a send is shown as a chord indicator rather than appended to the
/// visible buffer: everything but a single plain character is.
pub open spec fn is_chord_send(s: Seq<char>) -> bool {
    s.len() != 1
}

/// What recording one send does to the history. A chord equal to the one
/// already collapsed raises its count (which saturates at the machine bound);
/// any other chord starts a fresh indicator at one. A plain character appends
/// to the visible buffer, which keeps only the `cap` newest characters; when
/// the history was not visible text, the buffer restarts with just that
/// character.
pub open spec fn record_spec(m: HistoryModel, send: Seq<char>, cap: int) -> HistoryModel {
    if is_chord_send(send) {
        match m {
            HistoryModel::Chord { chord, count } => {
                if chord == send {
                    HistoryModel::Chord {
                        chord,
                        count: if count < usize::MAX as int {
                            count + 1
                        } else {
                            count
                        },
                    }
                } else {
                    HistoryModel::Chord { chord: send, count: 1 }
                }
            },
            _ => HistoryModel::Chord { chord: send, count: 1 },
        }
    } else {
        match m {
            HistoryModel::Visible { buffer } => HistoryModel::Visible {
                buffer: tail_of(buffer + send, cap),
            },
            _ => HistoryModel::Visible { buffer: tail_of(send, cap) },
        }
    }
}

/// The text the strip shows: the visible buffer, or the collapsed chord with
/// a repeat count from the second repetition on.
pub open spec fn preview_text(h: PreviewHistory) -> Seq<char> {
    match h {
        PreviewHistory::Empty => Seq::empty(),
        PreviewHistory::Visible { buffer } => buffer@,
        PreviewHistory::Chord { chord, count } => {
            if count == 1 {
                chord@
            } else {
                chord@ + " (x"@ + dec_spec(count as int) + ")"@
            }
        },
    }
}

/// Whether every character of `v` equals the string, in order.
fn chars_eq_str(v: &Vec<char>, s: &str) -> (r: bool)
    ensures
        r == (v@ == s@),
{
    let n = s.unicode_len();
    if v.len() != n {
        return false;
    }
    let mut i: usize = 0;
    while i < n
        invariant
            n == s@.len() == v@.len(),
            i <= n,
            forall|j: int| 0 <= j < i ==> v@[j] == s@[j],
        decreases n - i,
    {
        if v[i] != s.get_char(i) {
            return false;
        }
        i += 1;
    }
    proof {
        assert(v@ =~= s@);
    }
    true
}

fn str_to_chars(s: &str) -> (v: Vec<char>)
    ensures
        v@ == s@,
{
    let n = s.unicode_len();
    let mut v: Vec<char> = Vec::new();
    let mut i: usize = 0;
    while i < n
        invariant
            n == s@.len(),
            i <= n,
            v@ == s@.take(i as int),
        decreases n - i,
    {
        v.push(s.get_char(i));
        proof {
            assert(s@.take(i as int + 1) =~= s@.take(i as int).push(s@[i as int]));
        }
        i += 1;
    }
    proof {
        assert(s@.take(n as int) =~= s@);
    }
    v
}

impl Preview {
    /// A fresh preview strip over its region, with nothing sent yet.
    pub fn new(region: Region) -> (p: Preview)
        ensures
            p.region == region,
            p.history is Empty,
    {
        Preview { region, history: PreviewHistory::Empty }
    }

    /// Records one sent key sequence, collapsing as the strip's rule says;
    /// the visible buffer keeps at most as many characters as the strip is
    /// wide.
    pub fn record_send(&mut self, send: &str)
        ensures
            final(self).region == old(self).region,
            history_model(final(self).history) == record_spec(
                history_model(old(self).history),
                send@,
                old(self).region.size.cols as int,
            ),
    {
        let len = send.unicode_len();
        if len != 1 {
            let repeat = match &self.history {
                PreviewHistory::Chord { chord, count } => {
                    if chars_eq_str(chord, send) {
                        Some(*count)
                    } else {
                        None
                    }
                },
                _ => None,
            };
            match repeat {
                Some(count) => {
                    let new_count = if count < usize::MAX {
                        count + 1
                    } else {
                        count
                    };
                    let chord = str_to_chars(send);
                    self.history = PreviewHistory::Chord { chord, count: new_count };
                },
                None => {
                    let chord = str_to_chars(send);
                    self.history = PreviewHistory::Chord { chord, count: 1 };
                },
            }
        } else {
            let c = send.get_char(0);
            let cap = self.region.size.cols;
            let mut buffer = match &self.history {
                PreviewHistory::Visible { buffer } => {
                    let mut b: Vec<char> = Vec::new();
                    let n = buffer.len();
                    let mut i: usize = 0;
                    while i < n
                        invariant
                            n == buffer@.len(),
                            i <= n,
                            b@ == buffer@.take(i as int),
                        decreases n - i,
                    {
                        b.push(buffer[i]);
                        proof {
                            assert(buffer@.take(i as int + 1) =~= buffer@.take(i as int).push(
                                buffer@[i as int],
                            ));
                        }
                        i += 1;
                    }
                    proof {
                        assert(buffer@.take(n as int) =~= buffer@);
                    }
                    b
                },
                _ => Vec::new(),
            };
            buffer.push(c);
            let ghost full = buffer@;
            proof {
                assert(full.skip(0) =~= full);
            }
            while buffer.len() > cap
                invariant
                    buffer@ == full.skip(full.len() - buffer@.len()),
                    buffer@.len() <= full.len(),
                    buffer@.len() >= cap || buffer@.len() == full.len(),
                decreases buffer@.len(),
            {
                proof {
                    assert(buffer@.remove(0) =~= full.skip(full.len() - buffer@.len() + 1));
                }
                buffer.remove(0);
            }
            proof {
                assert(tail_of(full, cap as int) =~= buffer@);
                match old(self).history {
                    PreviewHistory::Visible { buffer: b0 } => {
                        assert(full =~= b0@ + send@) by {
                            assert(send@ =~= seq![send@[0]]);
                        }
                    },
                    _ => {
                        assert(full =~= send@) by {
                            assert(send@ =~= seq![send@[0]]);
                        }
                    },
                }
            }
            self.history = PreviewHistory::Visible { buffer };
        }
    }

    /// The text the strip shows now.
    pub fn render_text(&self) -> (t: String)
        ensures
            t@ == preview_text(self.history),
    {
        match &self.history {
            PreviewHistory::Empty => {
                let t = String::new();
                proof {
                    assert(t@ =~= preview_text(self.history));
                }
                t
            },
            PreviewHistory::Visible { buffer } => {
                let mut t = String::new();
                let n = buffer.len();
                let mut i: usize = 0;
                while i < n
                    invariant
                        n == buffer@.len(),
                        i <= n,
                        t@ == buffer@.take(i as int),
                    decreases n - i,
                {
                    push_char(&mut t, buffer[i]);
                    proof {
                        assert(buffer@.take(i as int + 1) =~= buffer@.take(i as int).push(
                            buffer@[i as int],
                        ));
                    }
                    i += 1;
                }
                proof {
                    assert(buffer@.take(n as int) =~= buffer@);
                }
                t
            },
            PreviewHistory::Chord { chord, count } => {
                let mut t = String::new();
                let n = chord.len();
                let mut i: usize = 0;
                while i < n
                    invariant
                        n == chord@.len(),
                        i <= n,
                        t@ == chord@.take(i as int),
                    decreases n - i,
                {
                    push_char(&mut t, chord[i]);
                    proof {
                        assert(chord@.take(i as int + 1) =~= chord@.take(i as int).push(
                            chord@[i as int],
                        ));
                    }
                    i += 1;
                }
                proof {
                    assert(chord@.take(n as int) =~= chord@);
                }
                if *count != 1 {
                    t.append(" (x");
                    let digits = usize_to_string(*count);
                    t.append(digits.as_str());
                    t.append(")");
                }
                t
            },
        }
    }
}

} // verus!
