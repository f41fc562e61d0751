//! The renderer: key states become bordered boxes of styled cells, composited
//! into one frame at an offset that centers the layout in the terminal, with
//! the preview strip's text drawn over its reserved region.
//!
//! The frame is a plain grid of cells, each a character with bold, italic and
//! reverse-video flags; the host turns it into whatever its terminal wants.

use vstd::prelude::*;

use crate::geometry::{Position, Region, Size};
use crate::layout::{key_bounded, region_bounded, MAX_EXTENT, MIN_KEY_DIM};
use crate::preview::{preview_text, Preview};
use crate::state::{KeyPressState, KeyState, Keyboard};

verus! {

/// How a cell is styled.
#[derive(Clone, Copy, Debug, PartialEq, Eq, Structural)]
pub struct Style {
    pub bold: bool,
    pub italic: bool,
    pub reverse: bool,
}

/// One terminal cell: a character and its style.
#[derive(Clone, Copy, Debug, PartialEq, Eq, Structural)]
pub struct Cell {
    pub ch: char,
    pub style: Style,
}

/// A rectangular buffer of styled cells, row by row.
#[derive(Clone, Debug)]
pub struct Frame {
    pub size: Size,
    pub cells: Vec<Vec<Cell>>,
}

/// No styling at all.
pub open spec fn plain_style() -> Style {
    Style { bold: false, italic: false, reverse: false }
}

/// An empty cell: a space without styling.
pub open spec fn blank_cell() -> Cell {
    Cell { ch: ' ', style: plain_style() }
}

/// How a key's box is styled: plain when neutral, bold while pressed,
/// italic while a one-shot is armed, italic reverse-video while locked on;
/// a selected control-action key is bold besides.
pub open spec fn key_style(press: KeyPressState, selected: bool) -> Style {
    let s = match press {
        KeyPressState::Neutral => plain_style(),
        KeyPressState::Pressed => Style { bold: true, italic: false, reverse: false },
        KeyPressState::Activated => Style { bold: false, italic: true, reverse: true },
        KeyPressState::OneshotActivated => Style { bold: false, italic: true, reverse: false },
    };
    if selected {
        Style { bold: true, ..s }
    } else {
        s
    }
}

/// Whether the cell rows match the frame's stated size.
pub open spec fn frame_wf(f: Frame) -> bool {
    &&& f.cells@.len() == f.size.rows
    &&& forall|r: int| 0 <= r < f.cells@.len() ==> (#[trigger] f.cells@[r])@.len() == f.size.cols
}

/// The frame's cells as a sequence of rows.
pub open spec fn grid_of(f: Frame) -> Seq<Seq<Cell>> {
    Seq::new(f.cells@.len() as nat, |r: int| f.cells@[r]@)
}

/// The label a key shows: the shifted form while the shifted labels are
/// displayed.
pub open spec fn label_of(ks: KeyState, shift: bool) -> Seq<char> {
    if shift {
        ks.key.shift_code.label_spec()
    } else {
        ks.key.code.label_spec()
    }
}

/// The label as it fits the box interior: truncated to the interior width.
pub open spec fn interior_text(label: Seq<char>, w: int) -> Seq<char> {
    if label.len() > w {
        label.take(w)
    } else {
        label
    }
}

/// The cell at `(r, c)` of a key's box: single-line border characters around
/// an interior of spaces, with the label horizontally centered on the middle
/// row, all in the key's style.
pub open spec fn key_cell(ks: KeyState, shift: bool, r: int, c: int) -> Cell {
    let rows = ks.key.region.size.rows as int;
    let cols = ks.key.region.size.cols as int;
    let text = interior_text(label_of(ks, shift), cols - 2);
    let pad = (cols - 2 - text.len()) / 2;
    let ch = if r == 0 && c == 0 {
        '┌'
    } else if r == 0 && c == cols - 1 {
        '┐'
    } else if r == rows - 1 && c == 0 {
        '└'
    } else if r == rows - 1 && c == cols - 1 {
        '┘'
    } else if r == 0 || r == rows - 1 {
        '─'
    } else if c == 0 || c == cols - 1 {
        '│'
    } else if r == (rows - 1) / 2 && pad + 1 <= c < pad + 1 + text.len() {
        text[c - pad - 1]
    } else {
        ' '
    };
    Cell { ch, style: key_style(ks.press, ks.selected) }
}

/// A key's whole box as a grid.
pub open spec fn key_grid(ks: KeyState, shift: bool) -> Seq<Seq<Cell>> {
    Seq::new(
        ks.key.region.size.rows as nat,
        |r: int| Seq::new(ks.key.region.size.cols as nat, |c: int| key_cell(ks, shift, r, c)),
    )
}

impl KeyState {
    /// Draws the key's box: its rectangle filled cell by cell as `key_cell`
    /// says.
    pub fn to_frame(&self, shift: bool) -> (f: Frame)
        requires
            self.key.region.size.rows >= MIN_KEY_DIM,
            self.key.region.size.cols >= MIN_KEY_DIM,
        ensures
            frame_wf(f),
            f.size == self.key.region.size,
            grid_of(f) == key_grid(*self, shift),
    {
        let rows = self.key.region.size.rows;
        let cols = self.key.region.size.cols;
        let style = {
            let s = match self.press {
                KeyPressState::Neutral => Style { bold: false, italic: false, reverse: false },
                KeyPressState::Pressed => Style { bold: true, italic: false, reverse: false },
                KeyPressState::Activated => Style { bold: false, italic: true, reverse: true },
                KeyPressState::OneshotActivated => Style {
                    bold: false,
                    italic: true,
                    reverse: false,
                },
            };
            if self.selected {
                Style { bold: true, ..s }
            } else {
                s
            }
        };
        proof {
            assert(style == key_style(self.press, self.selected));
        }
        let label = if shift {
            self.key.shift_code.label()
        } else {
            self.key.code.label()
        };
        let label_len = label.as_str().unicode_len();
        let w = cols - 2;
        let text_len = if label_len > w {
            w
        } else {
            label_len
        };
        let pad = (w - text_len) / 2;
        let mid = (rows - 1) / 2;
        let ghost text = interior_text(label_of(*self, shift), w as int);
        proof {
            assert(text.len() == text_len);
            assert(forall|k: int| 0 <= k < text.len() ==> text[k] == label@[k]);
        }
        let mut cells: Vec<Vec<Cell>> = Vec::new();
        let mut r: usize = 0;
        while r < rows
            invariant
                rows == self.key.region.size.rows,
                cols == self.key.region.size.cols,
                rows >= MIN_KEY_DIM,
                cols >= MIN_KEY_DIM,
                style == key_style(self.press, self.selected),
                label@ == label_of(*self, shift),
                label_len == label@.len(),
                w == cols - 2,
                text == interior_text(label_of(*self, shift), w as int),
                text_len == text.len(),
                pad == (w - text_len) / 2,
                mid == (rows - 1) / 2,
                r <= rows,
                cells@.len() == r,
                forall|rr: int|
                    0 <= rr < r ==> (#[trigger] cells@[rr])@ == Seq::new(
                        cols as nat,
                        |c: int| key_cell(*self, shift, rr, c),
                    ),
            decreases rows - r,
        {
            let mut rowv: Vec<Cell> = Vec::new();
            let mut c: usize = 0;
            while c < cols
                invariant
                    rows == self.key.region.size.rows,
                    cols == self.key.region.size.cols,
                    rows >= MIN_KEY_DIM,
                    cols >= MIN_KEY_DIM,
                    style == key_style(self.press, self.selected),
                    label@ == label_of(*self, shift),
                    label_len == label@.len(),
                    w == cols - 2,
                    text == interior_text(label_of(*self, shift), w as int),
                    text_len == text.len(),
                    pad == (w - text_len) / 2,
                    mid == (rows - 1) / 2,
                    r < rows,
                    c <= cols,
                    rowv@.len() == c,
                    forall|cc: int|
                        0 <= cc < c ==> rowv@[cc] == key_cell(*self, shift, r as int, cc),
                decreases cols - c,
            {
                let ch: char = if r == 0 && c == 0 {
                    '┌'
                } else if r == 0 && c == cols - 1 {
                    '┐'
                } else if r == rows - 1 && c == 0 {
                    '└'
                } else if r == rows - 1 && c == cols - 1 {
                    '┘'
                } else if r == 0 || r == rows - 1 {
                    '─'
                } else if c == 0 || c == cols - 1 {
                    '│'
                } else if r == mid && c >= 1 + pad && c < 1 + pad + text_len {
                    label.as_str().get_char(c - 1 - pad)
                } else {
                    ' '
                };
                rowv.push(Cell { ch, style });
                proof {
                    assert(rowv@[c as int] == key_cell(*self, shift, r as int, c as int));
                }
                c += 1;
            }
            proof {
                assert(rowv@ =~= Seq::new(cols as nat, |cc: int| key_cell(*self, shift, r as int, cc)));
            }
            cells.push(rowv);
            r += 1;
        }
        let f = Frame { size: self.key.region.size, cells };
        proof {
            assert(grid_of(f) =~~= key_grid(*self, shift));
        }
        f
    }
}

/// The cell at `(r, c)` after a grid `sub` is laid over a base cell at the
/// offset `pos`: inside the overlay the overlay wins.
pub open spec fn overlay_cell(base: Cell, pos: Position, sub: Seq<Seq<Cell>>, r: int, c: int) -> Cell {
    if pos.row <= r < pos.row + sub.len() && pos.col <= c && c - pos.col < sub[r - pos.row].len() {
        sub[r - pos.row][c - pos.col]
    } else {
        base
    }
}

/// A whole grid with `sub` laid over it at `pos`; what falls outside the base
/// is clipped away.
pub open spec fn draw_grid(base: Seq<Seq<Cell>>, pos: Position, sub: Seq<Seq<Cell>>) -> Seq<
    Seq<Cell>,
> {
    Seq::new(
        base.len(),
        |r: int| Seq::new(base[r].len(), |c: int| overlay_cell(base[r][c], pos, sub, r, c)),
    )
}

/// A blank grid of the given size.
pub open spec fn blank_grid(term: Size) -> Seq<Seq<Cell>> {
    Seq::new(term.rows as nat, |r: int| Seq::new(term.cols as nat, |c: int| blank_cell()))
}

impl Frame {
    /// A blank frame of the given size.
    pub fn new(size: Size) -> (f: Frame)
        ensures
            frame_wf(f),
            f.size == size,
            grid_of(f) == blank_grid(size),
    {
        let mut cells: Vec<Vec<Cell>> = Vec::new();
        let mut r: usize = 0;
        while r < size.rows
            invariant
                r <= size.rows,
                cells@.len() == r,
                forall|rr: int|
                    0 <= rr < r ==> (#[trigger] cells@[rr])@ == Seq::new(
                        size.cols as nat,
                        |c: int| blank_cell(),
                    ),
            decreases size.rows - r,
        {
            let mut rowv: Vec<Cell> = Vec::new();
            let mut c: usize = 0;
            while c < size.cols
                invariant
                    c <= size.cols,
                    rowv@.len() == c,
                    forall|cc: int| 0 <= cc < c ==> rowv@[cc] == blank_cell(),
                decreases size.cols - c,
            {
                rowv.push(Cell { ch: ' ', style: Style { bold: false, italic: false, reverse: false } });
                c += 1;
            }
            proof {
                assert(rowv@ =~= Seq::new(size.cols as nat, |cc: int| blank_cell()));
            }
            cells.push(rowv);
            r += 1;
        }
        let f = Frame { size, cells };
        proof {
            assert(grid_of(f) =~~= blank_grid(size));
        }
        f
    }

    /// Lays another frame over this one at the given offset; cells falling
    /// outside this frame are clipped away.
    pub fn draw(&mut self, pos: Position, sub: &Frame)
        requires
            frame_wf(*old(self)),
            frame_wf(*sub),
        ensures
            frame_wf(*final(self)),
            final(self).size == old(self).size,
            grid_of(*final(self)) == draw_grid(grid_of(*old(self)), pos, grid_of(*sub)),
    {
        let rows = self.cells.len();
        let mut cells: Vec<Vec<Cell>> = Vec::new();
        let mut r: usize = 0;
        while r < rows
            invariant
                frame_wf(*self),
                *self == *old(self),
                frame_wf(*sub),
                rows == self.cells@.len(),
                r <= rows,
                cells@.len() == r,
                forall|rr: int|
                    0 <= rr < r ==> (#[trigger] cells@[rr])@ == draw_grid(
                        grid_of(*self),
                        pos,
                        grid_of(*sub),
                    )[rr],
            decreases rows - r,
        {
            let cols = self.cells[r].len();
            let mut rowv: Vec<Cell> = Vec::new();
            let mut c: usize = 0;
            while c < cols
                invariant
                    frame_wf(*self),
                    *self == *old(self),
                    frame_wf(*sub),
                    rows == self.cells@.len(),
                    r < rows,
                    cols == self.cells@[r as int]@.len(),
                    c <= cols,
                    rowv@.len() == c,
                    forall|cc: int|
                        0 <= cc < c ==> rowv@[cc] == overlay_cell(
                            grid_of(*self)[r as int][cc],
                            pos,
                            grid_of(*sub),
                            r as int,
                            cc,
                        ),
                decreases cols - c,
            {
                let cell: Cell = if r >= pos.row && r - pos.row < sub.cells.len() && c >= pos.col
                    && c - pos.col < sub.cells[r - pos.row].len() {
                    sub.cells[r - pos.row][c - pos.col]
                } else {
                    self.cells[r][c]
                };
                rowv.push(cell);
                proof {
                    assert(rowv@[c as int] == overlay_cell(
                        grid_of(*self)[r as int][c as int],
                        pos,
                        grid_of(*sub),
                        r as int,
                        c as int,
                    ));
                }
                c += 1;
            }
            proof {
                assert(rowv@ =~= draw_grid(grid_of(*self), pos, grid_of(*sub))[r as int]);
            }
            cells.push(rowv);
            r += 1;
        }
        self.cells = cells;
        proof {
            assert(grid_of(*self) =~~= draw_grid(grid_of(*old(self)), pos, grid_of(*sub)));
        }
    }
}

/// The rows the keys reach: the largest lower edge.
pub open spec fn keys_extent_rows(keys: Seq<KeyState>) -> int
    decreases keys.len(),
{
    if keys.len() == 0 {
        0
    } else {
        let rest = keys_extent_rows(keys.drop_last());
        let last = keys.last().key.region.position.row + keys.last().key.region.size.rows;
        if last > rest {
            last
        } else {
            rest
        }
    }
}

/// The columns the keys reach: the largest right edge.
pub open spec fn keys_extent_cols(keys: Seq<KeyState>) -> int
    decreases keys.len(),
{
    if keys.len() == 0 {
        0
    } else {
        let rest = keys_extent_cols(keys.drop_last());
        let last = keys.last().key.region.position.col + keys.last().key.region.size.cols;
        if last > rest {
            last
        } else {
            rest
        }
    }
}

/// The rows the whole layout reaches, preview strip included.
pub open spec fn extent_rows(keys: Seq<KeyState>, preview: Option<Region>) -> int {
    let k = keys_extent_rows(keys);
    match preview {
        Some(rg) => {
            let p = rg.position.row + rg.size.rows;
            if p > k {
                p
            } else {
                k
            }
        },
        None => k,
    }
}

/// The columns the whole layout reaches, preview strip included.
pub open spec fn extent_cols(keys: Seq<KeyState>, preview: Option<Region>) -> int {
    let k = keys_extent_cols(keys);
    match preview {
        Some(rg) => {
            let p = rg.position.col + rg.size.cols;
            if p > k {
                p
            } else {
                k
            }
        },
        None => k,
    }
}

/// The offset that centers a bounding box of the given extent in the
/// available size; a layout larger than the terminal sits at the origin.
pub open spec fn center_offset(ext_rows: int, ext_cols: int, avail: Size) -> Position {
    Position {
        row: (if avail.rows >= ext_rows {
            ((avail.rows - ext_rows) / 2) as usize
        } else {
            0
        }),
        col: (if avail.cols >= ext_cols {
            ((avail.cols - ext_cols) / 2) as usize
        } else {
            0
        }),
    }
}

/// A layout position moved by the centering offset.
pub open spec fn shifted_pos(offset: Position, p: Position) -> Position {
    Position { row: (offset.row + p.row) as usize, col: (offset.col + p.col) as usize }
}

/// All key boxes laid over a base grid, in layout order, at the centering
/// offset; a later box wins where boxes overlap.
pub open spec fn keys_grid(
    base: Seq<Seq<Cell>>,
    keys: Seq<KeyState>,
    shift: bool,
    offset: Position,
) -> Seq<Seq<Cell>>
    decreases keys.len(),
{
    if keys.len() == 0 {
        base
    } else {
        draw_grid(
            keys_grid(base, keys.drop_last(), shift, offset),
            shifted_pos(offset, keys.last().key.region.position),
            key_grid(keys.last(), shift),
        )
    }
}

/// The preview strip's one-row grid: the text's characters, then spaces,
/// unstyled.
pub open spec fn strip_cell(text: Seq<char>, c: int) -> Cell {
    Cell {
        ch: if c < text.len() {
            text[c]
        } else {
            ' '
        },
        style: plain_style(),
    }
}

pub open spec fn strip_row(text: Seq<char>, cols: int) -> Seq<Cell> {
    Seq::new(cols as nat, |c: int| strip_cell(text, c))
}

pub open spec fn strip_grid(text: Seq<char>, cols: int) -> Seq<Seq<Cell>> {
    seq![strip_row(text, cols)]
}

/// The whole drawn frame: every key box over a blank frame of the terminal's
/// size, the preview strip's text last, everything at the centering offset.
pub open spec fn render_grid(
    keys: Seq<KeyState>,
    shift: bool,
    preview: Option<Preview>,
    term: Size,
) -> Seq<Seq<Cell>> {
    let pr = match preview {
        Some(p) => Some(p.region),
        None => None,
    };
    let offset = center_offset(extent_rows(keys, pr), extent_cols(keys, pr), term);
    let with_keys = keys_grid(blank_grid(term), keys, shift, offset);
    match preview {
        Some(p) => draw_grid(
            with_keys,
            shifted_pos(offset, p.region.position),
            strip_grid(preview_text(p.history), p.region.size.cols as int),
        ),
        None => with_keys,
    }
}

/// Whether a keyboard's rectangles are small enough to composite: what a
/// built layout guarantees.
pub open spec fn keyboard_drawable(kb: Keyboard) -> bool {
    forall|i: int|
        0 <= i < kb.keys@.len() ==> key_bounded((#[trigger] kb.keys@[i]).key)
            && kb.keys@[i].key.region.size.rows >= MIN_KEY_DIM && kb.keys@[i].key.region.size.cols
            >= MIN_KEY_DIM
}

/// Whether the keyboard's rectangles meet `render`'s requirements.
pub fn keyboard_is_drawable(kb: &Keyboard) -> (r: bool)
    ensures
        r == keyboard_drawable(*kb),
{
    let n = kb.keys.len();
    let mut i: usize = 0;
    while i < n
        invariant
            n == kb.keys@.len(),
            i <= n,
            forall|j: int|
                0 <= j < i ==> key_bounded((#[trigger] kb.keys@[j]).key)
                    && kb.keys@[j].key.region.size.rows >= MIN_KEY_DIM
                    && kb.keys@[j].key.region.size.cols >= MIN_KEY_DIM,
        decreases n - i,
    {
        let rg = kb.keys[i].key.region;
        if rg.size.rows < MIN_KEY_DIM || rg.size.cols < MIN_KEY_DIM {
            return false;
        }
        if rg.size.rows > MAX_EXTENT || rg.position.row > MAX_EXTENT - rg.size.rows {
            return false;
        }
        if rg.size.cols > MAX_EXTENT || rg.position.col > MAX_EXTENT - rg.size.cols {
            return false;
        }
        i += 1;
    }
    true
}

/// Whether a region meets the renderer's coordinate bound.
pub fn region_is_bounded(rg: &Region) -> (r: bool)
    ensures
        r == region_bounded(*rg),
{
    rg.position.row <= MAX_EXTENT && rg.size.rows <= MAX_EXTENT - rg.position.row
        && rg.position.col <= MAX_EXTENT && rg.size.cols <= MAX_EXTENT - rg.position.col
}

/// The extent of the layout as drawn, preview strip included.
fn layout_extent(kb: &Keyboard, preview: Option<&Preview>) -> (e: (usize, usize))
    requires
        keyboard_drawable(*kb),
        match preview {
            Some(p) => region_bounded(p.region),
            None => true,
        },
    ensures
        e.0 as int == extent_rows(
            kb.keys@,
            match preview {
                Some(p) => Some(p.region),
                None => None,
            },
        ),
        e.1 as int == extent_cols(
            kb.keys@,
            match preview {
                Some(p) => Some(p.region),
                None => None,
            },
        ),
        e.0 <= MAX_EXTENT,
        e.1 <= MAX_EXTENT,
{
    let n = kb.keys.len();
    let mut rows: usize = 0;
    let mut cols: usize = 0;
    let mut i: usize = 0;
    while i < n
        invariant
            keyboard_drawable(*kb),
            n == kb.keys@.len(),
            i <= n,
            rows as int == keys_extent_rows(kb.keys@.take(i as int)),
            cols as int == keys_extent_cols(kb.keys@.take(i as int)),
            rows <= MAX_EXTENT,
            cols <= MAX_EXTENT,
        decreases n - i,
    {
        proof {
            assert(kb.keys@.take(i as int + 1).drop_last() =~= kb.keys@.take(i as int));
            assert(kb.keys@.take(i as int + 1).last() == kb.keys@[i as int]);
        }
        let key = kb.keys[i].key;
        let kr = key.region.position.row + key.region.size.rows;
        if kr > rows {
            rows = kr;
        }
        let kc = key.region.position.col + key.region.size.cols;
        if kc > cols {
            cols = kc;
        }
        i += 1;
    }
    proof {
        assert(kb.keys@.take(n as int) =~= kb.keys@);
    }
    match preview {
        Some(p) => {
            let pr = p.region.position.row + p.region.size.rows;
            if pr > rows {
                rows = pr;
            }
            let pc = p.region.position.col + p.region.size.cols;
            if pc > cols {
                cols = pc;
            }
        },
        None => {},
    }
    (rows, cols)
}

/// The offset that centers the drawn layout in the available terminal size.
/// Hit-testing subtracts the same offset from mouse positions.
pub fn layout_offset(kb: &Keyboard, preview: Option<&Preview>, term: Size) -> (p: Position)
    requires
        keyboard_drawable(*kb),
        match preview {
            Some(p) => region_bounded(p.region),
            None => true,
        },
    ensures
        p == center_offset(
            extent_rows(
                kb.keys@,
                match preview {
                    Some(pv) => Some(pv.region),
                    None => None,
                },
            ),
            extent_cols(
                kb.keys@,
                match preview {
                    Some(pv) => Some(pv.region),
                    None => None,
                },
            ),
            term,
        ),
        p.row <= term.rows,
        p.col <= term.cols,
{
    let (ext_rows, ext_cols) = layout_extent(kb, preview);
    let row = if term.rows >= ext_rows {
        (term.rows - ext_rows) / 2
    } else {
        0
    };
    let col = if term.cols >= ext_cols {
        (term.cols - ext_cols) / 2
    } else {
        0
    };
    Position { row, col }
}

/// The preview strip as a one-row frame of its text.
fn strip_frame(text: &str, cols: usize) -> (f: Frame)
    ensures
        frame_wf(f),
        f.size == (Size { rows: 1, cols }),
        grid_of(f) == strip_grid(text@, cols as int),
{
    let len = text.unicode_len();
    let mut rowv: Vec<Cell> = Vec::new();
    let mut c: usize = 0;
    while c < cols
        invariant
            len == text@.len(),
            c <= cols,
            rowv@.len() == c,
            forall|cc: int| 0 <= cc < c ==> rowv@[cc] == strip_grid(text@, cols as int)[0][cc],
        decreases cols - c,
    {
        let ch = if c < len {
            text.get_char(c)
        } else {
            ' '
        };
        rowv.push(Cell { ch, style: Style { bold: false, italic: false, reverse: false } });
        proof {
            assert(strip_row(text@, cols as int)[c as int].ch == ch);
            assert(strip_row(text@, cols as int)[c as int].style == (Style {
                bold: false,
                italic: false,
                reverse: false,
            }));
            assert(strip_grid(text@, cols as int)[0] == strip_row(text@, cols as int));
            assert(rowv@[c as int] == strip_grid(text@, cols as int)[0][c as int]);
        }
        c += 1;
    }
    let mut cells: Vec<Vec<Cell>> = Vec::new();
    cells.push(rowv);
    let f = Frame { size: Size { rows: 1, cols }, cells };
    proof {
        assert(grid_of(f) =~~= strip_grid(text@, cols as int));
    }
    f
}

/// Draws the whole keyboard: every key box, and the preview strip's text,
/// composited into one frame of the terminal's size at the centering offset.
pub fn render(kb: &Keyboard, shift: bool, preview: Option<&Preview>, term: Size) -> (f: Frame)
    requires
        keyboard_drawable(*kb),
        term.rows <= MAX_EXTENT,
        term.cols <= MAX_EXTENT,
        match preview {
            Some(p) => region_bounded(p.region),
            None => true,
        },
    ensures
        frame_wf(f),
        f.size == term,
        grid_of(f) == render_grid(
            kb.keys@,
            shift,
            match preview {
                Some(p) => Some(*p),
                None => None,
            },
            term,
        ),
{
    let offset = layout_offset(kb, preview, term);
    let mut f = Frame::new(term);
    let n = kb.keys.len();
    let mut i: usize = 0;
    while i < n
        invariant
            keyboard_drawable(*kb),
            term.rows <= MAX_EXTENT,
            term.cols <= MAX_EXTENT,
            offset.row <= term.rows,
            offset.col <= term.cols,
            n == kb.keys@.len(),
            i <= n,
            frame_wf(f),
            f.size == term,
            grid_of(f) == keys_grid(blank_grid(term), kb.keys@.take(i as int), shift, offset),
        decreases n - i,
    {
        proof {
            assert(kb.keys@.take(i as int + 1).drop_last() =~= kb.keys@.take(i as int));
            assert(kb.keys@.take(i as int + 1).last() == kb.keys@[i as int]);
        }
        let ks = &kb.keys[i];
        let sub = ks.to_frame(shift);
        let pos = Position {
            row: offset.row + ks.key.region.position.row,
            col: offset.col + ks.key.region.position.col,
        };
        f.draw(pos, &sub);
        i += 1;
    }
    proof {
        assert(kb.keys@.take(n as int) =~= kb.keys@);
    }
    match preview {
        Some(p) => {
            let text = p.render_text();
            let sub = strip_frame(text.as_str(), p.region.size.cols);
            let pos = Position {
                row: offset.row + p.region.position.row,
                col: offset.col + p.region.position.col,
            };
            f.draw(pos, &sub);
        },
        None => {},
    }
    f
}

} // verus!
