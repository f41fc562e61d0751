//! The control-protocol client logic for the multiplexer channel: one textual
//! command per line, arguments quoted where needed, and a response read line
//! by line until a success or error marker.
//!
//! The host program owns the channel's pipe; this module pins down what line
//! it must write for a command and what a stream of response lines means.

use vstd::prelude::*;

use crate::text::{push_char, starts_with, str_starts_with};

verus! {

/// A command for the multiplexer: its name and its arguments, unserialized.
#[derive(Clone, Debug)]
pub struct ChannelCommand {
    pub name: String,
    pub args: Vec<String>,
}

/// How a channel round trip can fail.
#[derive(Clone, Copy, Debug, PartialEq, Eq, Structural)]
pub enum ChannelError {
    /// The multiplexer reported the command itself as invalid.
    Rejected,
    /// Reading or writing the channel failed; no confirmation arrived.
    Transport,
}

/// Whether an argument must be double-quoted on the wire: it holds a space or
/// the command separator.
pub open spec fn needs_quoting(a: Seq<char>) -> bool {
    exists|i: int| 0 <= i < a.len() && (a[i] == ' ' || a[i] == ';')
}

/// How one character of a quoted argument is written: an internal double
/// quote gets a backslash before it.
pub open spec fn esc_char(c: char) -> Seq<char> {
    if c == '"' {
        seq!['\\', '"']
    } else {
        seq![c]
    }
}

/// A quoted argument's body: every character escaped.
pub open spec fn escape_quotes(a: Seq<char>) -> Seq<char>
    decreases a.len(),
{
    if a.len() == 0 {
        Seq::empty()
    } else {
        escape_quotes(a.drop_last()) + esc_char(a.last())
    }
}

/// An argument as it stands on the wire: double-quoted with internal quotes
/// escaped when it needs quoting, verbatim otherwise.
pub open spec fn quoted_arg(a: Seq<char>) -> Seq<char> {
    if needs_quoting(a) {
        seq!['"'] + escape_quotes(a) + seq!['"']
    } else {
        a
    }
}

/// The serialized arguments: each preceded by one space.
pub open spec fn serialized_args(args: Seq<Seq<char>>) -> Seq<char>
    decreases args.len(),
{
    if args.len() == 0 {
        Seq::empty()
    } else {
        serialized_args(args.drop_last()) + seq![' '] + quoted_arg(args.last())
    }
}

/// The command line for a command: its name, then its arguments. The host
/// writes this line followed by a newline and flushes.
pub open spec fn serialize_spec(name: Seq<char>, args: Seq<Seq<char>>) -> Seq<char> {
    name + serialized_args(args)
}

/// Whether the argument must be quoted on the wire.
fn arg_needs_quoting(a: &str) -> (r: bool)
    ensures
        r == needs_quoting(a@),
{
    let len = a.unicode_len();
    let mut i: usize = 0;
    while i < len
        invariant
            len == a@.len(),
            i <= len,
            forall|j: int| 0 <= j < i ==> !(a@[j] == ' ' || a@[j] == ';'),
        decreases len - i,
    {
        let c = a.get_char(i);
        if c == ' ' || c == ';' {
            return true;
        }
        i += 1;
    }
    false
}

/// Appends the escaped body of an argument to `out`.
fn append_escaped(out: &mut String, a: &str)
    ensures
        final(out)@ == old(out)@ + escape_quotes(a@),
{
    let len = a.unicode_len();
    let mut i: usize = 0;
    proof {
        assert(out@ + escape_quotes(a@.take(0)) =~= out@);
    }
    while i < len
        invariant
            len == a@.len(),
            i <= len,
            out@ == old(out)@ + escape_quotes(a@.take(i as int)),
        decreases len - i,
    {
        let c = a.get_char(i);
        proof {
            assert(a@.take(i as int + 1).drop_last() =~= a@.take(i as int));
            assert(a@.take(i as int + 1).last() == a@[i as int]);
        }
        if c == '"' {
            push_char(out, '\\');
            push_char(out, '"');
            proof {
                assert(old(out)@ + escape_quotes(a@.take(i as int + 1)) =~= (old(out)@
                    + escape_quotes(a@.take(i as int))).push('\\').push('"'));
            }
        } else {
            push_char(out, c);
            proof {
                assert(old(out)@ + escape_quotes(a@.take(i as int + 1)) =~= (old(out)@
                    + escape_quotes(a@.take(i as int))).push(c));
            }
        }
        i += 1;
    }
    proof {
        assert(a@.take(len as int) =~= a@);
    }
}

/// Serializes a command into the one line the host writes to the channel.
pub fn serialize_command(cmd: &ChannelCommand) -> (r: String)
    ensures
        r@ == serialize_spec(cmd.name@, cmd.args.deep_view()),
{
    let mut s = String::from_str(cmd.name.as_str());
    let n = cmd.args.len();
    let ghost dv = cmd.args.deep_view();
    proof {
        assert(dv.len() == n);
        assert(s@ =~= serialize_spec(cmd.name@, dv.take(0)));
    }
    let mut i: usize = 0;
    while i < n
        invariant
            n == cmd.args@.len(),
            dv == cmd.args.deep_view(),
            dv.len() == n,
            i <= n,
            s@ == serialize_spec(cmd.name@, dv.take(i as int)),
        decreases n - i,
    {
        proof {
            assert(dv.take(i as int + 1).drop_last() =~= dv.take(i as int));
            assert(dv.take(i as int + 1).last() == dv[i as int]);
            assert(dv[i as int] == cmd.args@[i as int]@);
        }
        push_char(&mut s, ' ');
        let arg = &cmd.args[i];
        if arg_needs_quoting(arg.as_str()) {
            push_char(&mut s, '"');
            append_escaped(&mut s, arg.as_str());
            push_char(&mut s, '"');
            proof {
                assert(serialize_spec(cmd.name@, dv.take(i as int + 1)) =~= serialize_spec(
                    cmd.name@,
                    dv.take(i as int),
                ).push(' ').push('"') + escape_quotes(dv[i as int]) + seq!['"']);
                assert(s@ =~= serialize_spec(cmd.name@, dv.take(i as int)).push(' ').push('"')
                    + escape_quotes(dv[i as int]) + seq!['"']);
            }
        } else {
            s.append(arg.as_str());
            proof {
                assert(serialize_spec(cmd.name@, dv.take(i as int + 1)) =~= serialize_spec(
                    cmd.name@,
                    dv.take(i as int),
                ).push(' ') + dv[i as int]);
                assert(s@ =~= serialize_spec(cmd.name@, dv.take(i as int)).push(' ')
                    + dv[i as int]);
            }
        }
        i += 1;
    }
    proof {
        assert(dv.take(n as int) =~= dv);
    }
    s
}

/// What one response line means.
#[derive(Clone, Copy, Debug, PartialEq, Eq, Structural)]
pub enum ResponseKind {
    /// The line begins with the success marker: the command completed.
    Success,
    /// The line begins with the error marker: the command was rejected.
    Failure,
    /// Any other line: keep reading.
    Other,
}

/// The meaning of one response line: the success marker wins, then the error
/// marker, and any other line says nothing.
pub open spec fn line_kind_spec(l: Seq<char>) -> ResponseKind {
    if starts_with(l, "%end"@) {
        ResponseKind::Success
    } else if starts_with(l, "%error"@) {
        ResponseKind::Failure
    } else {
        ResponseKind::Other
    }
}

/// Classifies one response line read from the channel.
pub fn classify_line(line: &str) -> (r: ResponseKind)
    ensures
        r == line_kind_spec(line@),
{
    if str_starts_with(line, "%end") {
        ResponseKind::Success
    } else if str_starts_with(line, "%error") {
        ResponseKind::Failure
    } else {
        ResponseKind::Other
    }
}

/// What a whole stream of response lines means: the first marker line
/// decides, and a stream that ends without one never confirmed the command.
pub open spec fn outcome_spec(lines: Seq<Seq<char>>) -> Result<(), ChannelError>
    decreases lines.len(),
{
    if lines.len() == 0 {
        Err(ChannelError::Transport)
    } else {
        match line_kind_spec(lines[0]) {
            ResponseKind::Success => Ok(()),
            ResponseKind::Failure => Err(ChannelError::Rejected),
            ResponseKind::Other => outcome_spec(lines.skip(1)),
        }
    }
}

/// Resolves a finished stream of response lines.
pub fn channel_outcome(lines: &Vec<String>) -> (r: Result<(), ChannelError>)
    ensures
        r == outcome_spec(lines.deep_view()),
{
    let n = lines.len();
    let ghost dv = lines.deep_view();
    proof {
        assert(dv.len() == n);
        assert(dv.skip(0) =~= dv);
    }
    let mut i: usize = 0;
    while i < n
        invariant
            n == lines@.len(),
            dv == lines.deep_view(),
            dv.len() == n,
            i <= n,
            outcome_spec(dv) == outcome_spec(dv.skip(i as int)),
        decreases n - i,
    {
        proof {
            assert(dv.skip(i as int)[0] == dv[i as int]);
            assert(dv[i as int] == lines@[i as int]@);
            assert(dv.skip(i as int).skip(1) =~= dv.skip(i as int + 1));
        }
        match classify_line(lines[i].as_str()) {
            ResponseKind::Success => {
                return Ok(());
            },
            ResponseKind::Failure => {
                return Err(ChannelError::Rejected);
            },
            ResponseKind::Other => {},
        }
        i += 1;
    }
    proof {
        assert(dv.skip(n as int) =~= Seq::<Seq<char>>::empty());
    }
    Err(ChannelError::Transport)
}

/// A response stream whose only marker line is its last line means exactly
/// what that marker says: ending in the success marker is success and ending
/// in the error marker is a rejection, however many lines came before.
pub proof fn lemma_outcome_of_terminal_marker(lines: Seq<Seq<char>>)
    requires
        lines.len() > 0,
        forall|i: int| 0 <= i < lines.len() - 1 ==> line_kind_spec(#[trigger] lines[i]) is Other,
    ensures
        line_kind_spec(lines.last()) is Success ==> outcome_spec(lines) == Ok::<(), ChannelError>(
            (),
        ),
        line_kind_spec(lines.last()) is Failure ==> outcome_spec(lines) == Err::<
            (),
            ChannelError,
        >(ChannelError::Rejected),
    decreases lines.len(),
{
    if lines.len() == 1 {
        assert(lines[0] == lines.last());
    } else {
        assert(line_kind_spec(lines[0]) is Other);
        assert(forall|i: int|
            0 <= i < lines.skip(1).len() - 1 ==> lines.skip(1)[i] == #[trigger] lines[i + 1]);
        assert(lines.skip(1).last() == lines.last());
        lemma_outcome_of_terminal_marker(lines.skip(1));
    }
}

} // verus!
