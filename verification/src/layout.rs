//! The declarative layout engine: an ordered list of placement directives is
//! turned into a list of positioned keys plus an optional preview strip.
//!
//! The engine walks the directives left to right keeping a cursor, the base
//! column of the current row, the fallback key size, and the tallest key
//! height seen since the last newline. Every produced key gets the rectangle
//! at the cursor and the cursor advances one column past its right edge.

use vstd::prelude::*;

use crate::geometry::{Position, Region, Size};
use crate::keycode::KeyCode;

verus! {

/// Why a layout description was rejected.
#[derive(Clone, Copy, Debug, PartialEq, Eq, Structural)]
pub enum LayoutError {
    /// A textual key-code name matches nothing the keyboard knows.
    UnknownKeyCode,
    /// A pane-selection key code does not carry a well-formed pane index.
    BadPaneIndex,
    /// An explicitly requested width or height lies below the minimum of 3.
    UndersizedSize,
    /// A blank or newline directive asks to advance by zero.
    ZeroAdvance,
    /// More than one preview directive appears in one description.
    DuplicatePreview,
}

/// One placement directive of a layout description.
#[derive(Clone, Copy, Debug, PartialEq, Eq, Structural)]
pub enum Directive {
    /// Produce a key at the cursor; missing parts fall back to the derived
    /// shifted form and to the current default size.
    Key { code: KeyCode, shift_code: Option<KeyCode>, size: Option<Size> },
    /// Advance the cursor horizontally by `cols` without producing a key.
    Blank { cols: usize },
    /// Reset the cursor to the row's base column and advance downward by the
    /// tallest key height seen since the last newline, minus one, plus `rows`.
    Newline { rows: usize },
    /// Jump the cursor absolutely and reset the row's base column.
    BasePosition { position: Position },
    /// Change the fallback size used by keys without an explicit size.
    DefaultSize { size: Size },
    /// Reserve a one-row preview strip spanning `cols` columns at the cursor
    /// and advance the cursor past it.
    Preview { cols: usize },
}

/// An immutable key of a built layout: its code, its shifted form, and the
/// rectangle it occupies.
#[derive(Clone, Copy, Debug, PartialEq, Eq, Structural)]
pub struct Key {
    pub code: KeyCode,
    pub shift_code: KeyCode,
    pub region: Region,
}

/// A built layout: the keys in directive order plus an optional preview
/// strip.
#[derive(Clone, Debug)]
pub struct Layout {
    pub keys: Vec<Key>,
    pub preview: Option<Region>,
}

/// The most directives one description may hold.
pub const MAX_DIRECTIVES: usize = 4096;

/// The largest value any numeric directive field may hold.
pub const MAX_DIRECTIVE_UNIT: usize = 4096;

/// A bound that every coordinate of a built layout stays under.
pub const MAX_EXTENT: usize = 0x10000000;

/// The smallest width and height a key rectangle may have: a one-cell
/// interior inside a one-cell border.
pub const MIN_KEY_DIM: usize = 3;

/// Whether every numeric field of the directive is small enough for the
/// engine's cursor arithmetic to stay inside machine bounds.
pub open spec fn directive_bounded(d: Directive) -> bool {
    match d {
        Directive::Key { size, .. } => match size {
            Some(s) => s.rows <= MAX_DIRECTIVE_UNIT && s.cols <= MAX_DIRECTIVE_UNIT,
            None => true,
        },
        Directive::Blank { cols } => cols <= MAX_DIRECTIVE_UNIT,
        Directive::Newline { rows } => rows <= MAX_DIRECTIVE_UNIT,
        Directive::BasePosition { position } => position.row <= MAX_DIRECTIVE_UNIT
            && position.col <= MAX_DIRECTIVE_UNIT,
        Directive::DefaultSize { size } => size.rows <= MAX_DIRECTIVE_UNIT && size.cols
            <= MAX_DIRECTIVE_UNIT,
        Directive::Preview { cols } => cols <= MAX_DIRECTIVE_UNIT,
    }
}

/// The engine's cursor state, over unbounded integers.
pub ghost struct CursorModel {
    pub row: int,
    pub col: int,
    pub base_col: int,
    pub def_rows: int,
    pub def_cols: int,
    pub row_acc: int,
}

/// A produced key, over unbounded integers.
pub ghost struct KeyModel {
    pub code: KeyCode,
    pub shift_code: KeyCode,
    pub row: int,
    pub col: int,
    pub rows: int,
    pub cols: int,
}

/// A produced rectangle, over unbounded integers.
pub ghost struct RectModel {
    pub row: int,
    pub col: int,
    pub rows: int,
    pub cols: int,
}

/// The engine's whole state: cursor, keys produced so far, preview strip.
pub ghost struct LayoutModel {
    pub cursor: CursorModel,
    pub keys: Seq<KeyModel>,
    pub preview: Option<RectModel>,
}

/// The state the engine starts from: cursor at the origin, base column zero,
/// minimum default size, no key produced yet.
pub open spec fn initial_model() -> LayoutModel {
    LayoutModel {
        cursor: CursorModel {
            row: 0,
            col: 0,
            base_col: 0,
            def_rows: MIN_KEY_DIM as int,
            def_cols: MIN_KEY_DIM as int,
            row_acc: 1,
        },
        keys: Seq::empty(),
        preview: None,
    }
}

/// What one directive does to the engine's state.
pub open spec fn layout_step(m: LayoutModel, d: Directive) -> Result<LayoutModel, LayoutError> {
    match d {
        Directive::Key { code, shift_code, size } => {
            let dims = match size {
                Some(s) => (s.rows as int, s.cols as int),
                None => (m.cursor.def_rows, m.cursor.def_cols),
            };
            if dims.0 < MIN_KEY_DIM as int || dims.1 < MIN_KEY_DIM as int {
                Err(LayoutError::UndersizedSize)
            } else {
                let sc = match shift_code {
                    Some(sc) => sc,
                    None => code.spec_default_shift_code(),
                };
                let key = KeyModel {
                    code,
                    shift_code: sc,
                    row: m.cursor.row,
                    col: m.cursor.col,
                    rows: dims.0,
                    cols: dims.1,
                };
                Ok(
                    LayoutModel {
                        cursor: CursorModel {
                            col: m.cursor.col + dims.1,
                            row_acc: if dims.0 > m.cursor.row_acc {
                                dims.0
                            } else {
                                m.cursor.row_acc
                            },
                            ..m.cursor
                        },
                        keys: m.keys.push(key),
                        preview: m.preview,
                    },
                )
            }
        },
        Directive::Blank { cols } => {
            if cols == 0 {
                Err(LayoutError::ZeroAdvance)
            } else {
                Ok(
                    LayoutModel {
                        cursor: CursorModel { col: m.cursor.col + cols, ..m.cursor },
                        ..m
                    },
                )
            }
        },
        Directive::Newline { rows } => {
            if rows == 0 {
                Err(LayoutError::ZeroAdvance)
            } else {
                Ok(
                    LayoutModel {
                        cursor: CursorModel {
                            row: m.cursor.row + m.cursor.row_acc - 1 + rows,
                            col: m.cursor.base_col,
                            row_acc: 1,
                            ..m.cursor
                        },
                        ..m
                    },
                )
            }
        },
        Directive::BasePosition { position } => Ok(
            LayoutModel {
                cursor: CursorModel {
                    row: position.row as int,
                    col: position.col as int,
                    base_col: position.col as int,
                    ..m.cursor
                },
                ..m
            },
        ),
        Directive::DefaultSize { size } => {
            if size.rows < MIN_KEY_DIM || size.cols < MIN_KEY_DIM {
                Err(LayoutError::UndersizedSize)
            } else {
                Ok(
                    LayoutModel {
                        cursor: CursorModel {
                            def_rows: size.rows as int,
                            def_cols: size.cols as int,
                            ..m.cursor
                        },
                        ..m
                    },
                )
            }
        },
        Directive::Preview { cols } => {
            if cols == 0 {
                Err(LayoutError::ZeroAdvance)
            } else if m.preview is Some {
                Err(LayoutError::DuplicatePreview)
            } else {
                Ok(
                    LayoutModel {
                        cursor: CursorModel { col: m.cursor.col + cols, ..m.cursor },
                        keys: m.keys,
                        preview: Some(
                            RectModel { row: m.cursor.row, col: m.cursor.col, rows: 1, cols: cols as int },
                        ),
                    },
                )
            }
        },
    }
}

/// Running the engine over a directive sequence from a given state.
pub open spec fn layout_spec(ds: Seq<Directive>, m: LayoutModel) -> Result<
    LayoutModel,
    LayoutError,
>
    decreases ds.len(),
{
    if ds.len() == 0 {
        Ok(m)
    } else {
        match layout_step(m, ds[0]) {
            Ok(m2) => layout_spec(ds.skip(1), m2),
            Err(e) => Err(e),
        }
    }
}

/// Running the engine over a whole description.
pub open spec fn build_spec(ds: Seq<Directive>) -> Result<LayoutModel, LayoutError> {
    layout_spec(ds, initial_model())
}

/// The integer image of a built key.
pub open spec fn key_model_of(k: Key) -> KeyModel {
    KeyModel {
        code: k.code,
        shift_code: k.shift_code,
        row: k.region.position.row as int,
        col: k.region.position.col as int,
        rows: k.region.size.rows as int,
        cols: k.region.size.cols as int,
    }
}

/// The integer image of a rectangle.
pub open spec fn rect_model_of(r: Region) -> RectModel {
    RectModel {
        row: r.position.row as int,
        col: r.position.col as int,
        rows: r.size.rows as int,
        cols: r.size.cols as int,
    }
}

/// The integer image of an optional rectangle.
pub open spec fn preview_model_of(p: Option<Region>) -> Option<RectModel> {
    match p {
        Some(r) => Some(rect_model_of(r)),
        None => None,
    }
}

/// Whether a built layout is the machine-sized image of a model's output.
pub open spec fn layout_matches(l: Layout, m: LayoutModel) -> bool {
    &&& m.keys == l.keys@.map(|i: int, k: Key| key_model_of(k))
    &&& m.preview == preview_model_of(l.preview)
}

/// Whether a directive sequence jumps the cursor absolutely anywhere.
pub open spec fn no_base_position(ds: Seq<Directive>) -> bool {
    forall|i: int| 0 <= i < ds.len() ==> !(ds[i] is BasePosition)
}

/// Whether a key's rectangle stays under the coordinate bound.
pub open spec fn key_bounded(k: Key) -> bool {
    &&& k.region.position.row + k.region.size.rows <= MAX_EXTENT
    &&& k.region.position.col + k.region.size.cols <= MAX_EXTENT
}

/// Whether a region stays under the coordinate bound.
pub open spec fn region_bounded(r: Region) -> bool {
    &&& r.position.row + r.size.rows <= MAX_EXTENT
    &&& r.position.col + r.size.cols <= MAX_EXTENT
}

/// Whether every rectangle of a layout stays under the coordinate bound.
pub open spec fn layout_bounded(l: Layout) -> bool {
    &&& forall|i: int| 0 <= i < l.keys@.len() ==> key_bounded(#[trigger] l.keys@[i])
    &&& match l.preview {
        Some(r) => region_bounded(r),
        None => true,
    }
}

/// The state the model-level invariants speak of: the default size and every
/// produced key meet the minimum dimensions.
pub open spec fn model_dims_ok(m: LayoutModel) -> bool {
    &&& m.cursor.def_rows >= MIN_KEY_DIM as int
    &&& m.cursor.def_cols >= MIN_KEY_DIM as int
    &&& forall|i: int|
        0 <= i < m.keys.len() ==> (#[trigger] m.keys[i]).rows >= MIN_KEY_DIM as int
            && m.keys[i].cols >= MIN_KEY_DIM as int
}

/// Whether key rows never decrease along the sequence.
pub open spec fn rows_monotone(keys: Seq<KeyModel>) -> bool {
    forall|i: int, j: int|
        #![trigger keys[i], keys[j]]
        0 <= i <= j < keys.len() ==> keys[i].row <= keys[j].row
}

/// Whether every produced key's row lies at or above the cursor's row.
pub open spec fn rows_below_cursor(m: LayoutModel) -> bool {
    forall|i: int| 0 <= i < m.keys.len() ==> (#[trigger] m.keys[i]).row <= m.cursor.row
}

/// Every key a successful run produces has width and height of at least the
/// minimum, whatever the directives were.
pub proof fn lemma_layout_min_dims(ds: Seq<Directive>, m: LayoutModel)
    requires
        model_dims_ok(m),
        layout_spec(ds, m) is Ok,
    ensures
        model_dims_ok(layout_spec(ds, m)->Ok_0),
    decreases ds.len(),
{
    if ds.len() > 0 {
        let m2 = layout_step(m, ds[0])->Ok_0;
        assert(model_dims_ok(m2)) by {
            match ds[0] {
                Directive::Key { .. } => {
                    assert(forall|i: int|
                        0 <= i < m.keys.len() ==> m2.keys[i] == (#[trigger] m.keys[i]));
                },
                _ => {},
            }
        }
        lemma_layout_min_dims(ds.skip(1), m2);
    }
}

/// In a run whose directives never jump the cursor absolutely, keys come out
/// in non-decreasing row order.
pub proof fn lemma_layout_rows_monotone(ds: Seq<Directive>, m: LayoutModel)
    requires
        no_base_position(ds),
        m.cursor.row_acc >= 1,
        rows_monotone(m.keys),
        rows_below_cursor(m),
        layout_spec(ds, m) is Ok,
    ensures
        rows_monotone(layout_spec(ds, m)->Ok_0.keys),
    decreases ds.len(),
{
    if ds.len() > 0 {
        let m2 = layout_step(m, ds[0])->Ok_0;
        assert(!(ds[0] is BasePosition));
        assert(rows_monotone(m2.keys) && rows_below_cursor(m2) && m2.cursor.row_acc >= 1) by {
            match ds[0] {
                Directive::Key { .. } => {
                    assert(forall|i: int|
                        0 <= i < m.keys.len() ==> m2.keys[i] == (#[trigger] m.keys[i]));
                    assert(m2.keys[m.keys.len() as int].row == m.cursor.row);
                },
                _ => {},
            }
        }
        assert(no_base_position(ds.skip(1))) by {
            assert(forall|i: int|
                0 <= i < ds.skip(1).len() ==> ds.skip(1)[i] == #[trigger] ds[i + 1]);
        }
        lemma_layout_rows_monotone(ds.skip(1), m2);
    }
}

/// Whether a directive description meets `Layout::build`'s machine limits:
/// not too many directives, no numeric field too large.
pub fn directives_within_limits(directives: &Vec<Directive>) -> (r: bool)
    ensures
        r == (directives@.len() <= MAX_DIRECTIVES && forall|i: int|
            0 <= i < directives@.len() ==> directive_bounded(#[trigger] directives@[i])),
{
    if directives.len() > MAX_DIRECTIVES {
        return false;
    }
    let n = directives.len();
    let mut i: usize = 0;
    while i < n
        invariant
            n == directives@.len(),
            i <= n,
            forall|j: int| 0 <= j < i ==> directive_bounded(#[trigger] directives@[j]),
        decreases n - i,
    {
        let ok = match directives[i] {
            Directive::Key { size, .. } => match size {
                Some(s) => s.rows <= MAX_DIRECTIVE_UNIT && s.cols <= MAX_DIRECTIVE_UNIT,
                None => true,
            },
            Directive::Blank { cols } => cols <= MAX_DIRECTIVE_UNIT,
            Directive::Newline { rows } => rows <= MAX_DIRECTIVE_UNIT,
            Directive::BasePosition { position } => position.row <= MAX_DIRECTIVE_UNIT
                && position.col <= MAX_DIRECTIVE_UNIT,
            Directive::DefaultSize { size } => size.rows <= MAX_DIRECTIVE_UNIT && size.cols
                <= MAX_DIRECTIVE_UNIT,
            Directive::Preview { cols } => cols <= MAX_DIRECTIVE_UNIT,
        };
        if !ok {
            return false;
        }
        i += 1;
    }
    true
}

impl Layout {
    /// Builds a layout from a directive description.
    ///
    /// The result is the machine-sized image of running the layout engine
    /// over the directives: it fails exactly where the engine's model does,
    /// every produced key is at least `MIN_KEY_DIM` wide and high, all
    /// coordinates stay under `MAX_EXTENT`, and without absolute jumps the
    /// keys come out in non-decreasing row order.
    pub fn build(directives: &Vec<Directive>) -> (r: Result<Layout, LayoutError>)
        requires
            directives@.len() <= MAX_DIRECTIVES,
            forall|i: int|
                0 <= i < directives@.len() ==> directive_bounded(#[trigger] directives@[i]),
        ensures
            r is Ok <==> build_spec(directives@) is Ok,
            r is Ok ==> layout_matches(r->Ok_0, build_spec(directives@)->Ok_0),
            r is Err ==> r->Err_0 == build_spec(directives@)->Err_0,
            r is Ok ==> layout_bounded(r->Ok_0),
            r is Ok ==> forall|i: int|
                0 <= i < r->Ok_0.keys@.len() ==> (#[trigger] r->Ok_0.keys@[i]).region.size.rows
                    >= MIN_KEY_DIM && r->Ok_0.keys@[i].region.size.cols >= MIN_KEY_DIM,
            r is Ok && no_base_position(directives@) ==> forall|i: int, j: int|
                #![trigger r->Ok_0.keys@[i], r->Ok_0.keys@[j]]
                0 <= i <= j < r->Ok_0.keys@.len() ==> r->Ok_0.keys@[i].region.position.row
                    <= r->Ok_0.keys@[j].region.position.row,
    {
        let n = directives.len();
        let mut keys: Vec<Key> = Vec::new();
        let mut preview: Option<Region> = None;
        let mut row: usize = 0;
        let mut col: usize = 0;
        let mut base_col: usize = 0;
        let mut def_size = Size { rows: MIN_KEY_DIM, cols: MIN_KEY_DIM };
        let mut row_acc: usize = 1;
        let mut i: usize = 0;
        proof {
            assert(directives@.skip(0) =~= directives@);
            assert(keys@.map(|k: int, key: Key| key_model_of(key)) =~= Seq::<KeyModel>::empty());
        }
        while i < n
            invariant
                n == directives@.len() <= MAX_DIRECTIVES,
                forall|k: int| 0 <= k < n ==> directive_bounded(#[trigger] directives@[k]),
                i <= n,
                row <= 4096 + 8192 * i,
                col <= 4096 + 8192 * i,
                base_col <= MAX_DIRECTIVE_UNIT,
                MIN_KEY_DIM <= def_size.rows <= MAX_DIRECTIVE_UNIT,
                MIN_KEY_DIM <= def_size.cols <= MAX_DIRECTIVE_UNIT,
                1 <= row_acc <= MAX_DIRECTIVE_UNIT,
                forall|k: int| 0 <= k < keys@.len() ==> key_bounded(#[trigger] keys@[k]),
                match preview {
                    Some(r) => region_bounded(r),
                    None => true,
                },
                build_spec(directives@) == layout_spec(
                    directives@.skip(i as int),
                    LayoutModel {
                        cursor: CursorModel {
                            row: row as int,
                            col: col as int,
                            base_col: base_col as int,
                            def_rows: def_size.rows as int,
                            def_cols: def_size.cols as int,
                            row_acc: row_acc as int,
                        },
                        keys: keys@.map(|k: int, key: Key| key_model_of(key)),
                        preview: preview_model_of(preview),
                    },
                ),
            decreases n - i,
        {
            proof {
                assert(directives@.skip(i as int)[0] == directives@[i as int]);
                assert(directives@.skip(i as int).skip(1) =~= directives@.skip(i as int + 1));
            }
            let d = directives[i];
            match d {
                Directive::Key { code, shift_code, size } => {
                    let dims = match size {
                        Some(s) => s,
                        None => def_size,
                    };
                    if dims.rows < MIN_KEY_DIM || dims.cols < MIN_KEY_DIM {
                        return Err(LayoutError::UndersizedSize);
                    }
                    let sc = match shift_code {
                        Some(sc) => sc,
                        None => code.default_shift_code(),
                    };
                    let key = Key {
                        code,
                        shift_code: sc,
                        region: Region {
                            position: Position { row, col },
                            size: dims,
                        },
                    };
                    proof {
                        assert(keys@.push(key).map(|k: int, key: Key| key_model_of(key))
                            =~= keys@.map(|k: int, key: Key| key_model_of(key)).push(
                            key_model_of(key),
                        ));
                    }
                    keys.push(key);
                    col = col + dims.cols;
                    if dims.rows > row_acc {
                        row_acc = dims.rows;
                    }
                },
                Directive::Blank { cols } => {
                    if cols == 0 {
                        return Err(LayoutError::ZeroAdvance);
                    }
                    col = col + cols;
                },
                Directive::Newline { rows } => {
                    if rows == 0 {
                        return Err(LayoutError::ZeroAdvance);
                    }
                    row = row + (row_acc - 1) + rows;
                    col = base_col;
                    row_acc = 1;
                },
                Directive::BasePosition { position } => {
                    row = position.row;
                    col = position.col;
                    base_col = position.col;
                },
                Directive::DefaultSize { size } => {
                    if size.rows < MIN_KEY_DIM || size.cols < MIN_KEY_DIM {
                        return Err(LayoutError::UndersizedSize);
                    }
                    def_size = size;
                },
                Directive::Preview { cols } => {
                    if cols == 0 {
                        return Err(LayoutError::ZeroAdvance);
                    }
                    if preview.is_some() {
                        return Err(LayoutError::DuplicatePreview);
                    }
                    preview = Some(
                        Region {
                            position: Position { row, col },
                            size: Size { rows: 1, cols },
                        },
                    );
                    col = col + cols;
                },
            }
            i += 1;
        }
        proof {
            assert(directives@.skip(n as int) =~= Seq::<Directive>::empty());
        }
        let layout = Layout { keys, preview };
        proof {
            let result_model = build_spec(directives@)->Ok_0;
            assert(layout_matches(layout, result_model));
            assert(forall|a: int|
                0 <= a < layout.keys@.len() ==> result_model.keys[a] == key_model_of(
                    #[trigger] layout.keys@[a],
                ));
            lemma_layout_min_dims(directives@, initial_model());
            assert forall|a: int| 0 <= a < layout.keys@.len() implies (
            #[trigger] layout.keys@[a]).region.size.rows >= MIN_KEY_DIM
                && layout.keys@[a].region.size.cols >= MIN_KEY_DIM by {
                assert(result_model.keys[a].rows >= MIN_KEY_DIM as int);
                assert(result_model.keys[a].cols >= MIN_KEY_DIM as int);
            }
            if no_base_position(directives@) {
                lemma_layout_rows_monotone(directives@, initial_model());
                assert forall|a: int, b: int|
                    #![trigger layout.keys@[a], layout.keys@[b]]
                    0 <= a <= b < layout.keys@.len() implies layout.keys@[a].region.position.row
                    <= layout.keys@[b].region.position.row by {
                    assert(result_model.keys[a].row <= result_model.keys[b].row);
                }
            }
        }
        Ok(layout)
    }
}

} // verus!
