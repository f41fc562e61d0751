//! Help for pointing at a position in a long line of text: the window of the
//! line around the position, with ellipses where the line was cut, and where
//! the position lands inside the window.

use vstd::prelude::*;

use crate::text::push_char;

verus! {

/// How many characters of the line are shown at most, ellipses aside.
pub const MAX_ERROR_LINE_CHARS: usize = 80;

/// The window of `line` around the one-based column `column_pos`, and the
/// one-based column of that position inside the window: at most forty
/// characters of context on either side, with a three-dot ellipsis marking
/// each cut end.
pub open spec fn line_window(line: Seq<char>, column_pos: int) -> (Seq<char>, int) {
    let err = {
        let e = if column_pos >= 1 {
            column_pos - 1
        } else {
            0
        };
        if e < line.len() {
            e
        } else {
            line.len() as int
        }
    };
    let start = if err > 40 {
        err - 40
    } else {
        0
    };
    let end = if err + 41 < line.len() {
        err + 41
    } else {
        line.len() as int
    };
    let text = (if start > 0 {
        "..."@
    } else {
        Seq::<char>::empty()
    }) + line.subrange(start, end) + (if end < line.len() {
        "..."@
    } else {
        Seq::<char>::empty()
    });
    let col = err - start + 1 + (if start > 0 {
        3int
    } else {
        0int
    });
    (text, col)
}

/// Clips `line` to a window around the one-based `column_pos` and says where
/// the position lands inside the window.
pub fn format_line_around_position(line: &str, column_pos: usize) -> (r: (String, usize))
    ensures
        r.0@ == line_window(line@, column_pos as int).0,
        r.1 as int == line_window(line@, column_pos as int).1,
{
    let len = line.unicode_len();
    let e = if column_pos >= 1 {
        column_pos - 1
    } else {
        0
    };
    let err = if e < len {
        e
    } else {
        len
    };
    let start = if err > 40 {
        err - 40
    } else {
        0
    };
    let end = if len - err > 41 {
        err + 41
    } else {
        len
    };
    let mut s = String::new();
    if start > 0 {
        s.append("...");
    }
    let ghost head: Seq<char> = s@;
    let mut i: usize = start;
    while i < end
        invariant
            len == line@.len(),
            start <= i <= end <= len,
            s@ == head + line@.subrange(start as int, i as int),
        decreases end - i,
    {
        push_char(&mut s, line.get_char(i));
        proof {
            assert(line@.subrange(start as int, i as int + 1) =~= line@.subrange(
                start as int,
                i as int,
            ).push(line@[i as int]));
        }
        i += 1;
    }
    if end < len {
        s.append("...");
    }
    let col = if start > 0 {
        err - start + 4
    } else {
        err - start + 1
    };
    proof {
        assert(s@ =~= line_window(line@, column_pos as int).0);
    }
    (s, col)
}

} // verus!
