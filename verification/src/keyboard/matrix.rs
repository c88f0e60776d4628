//! The key matrix: a fixed 6 x 21 grid of `Key`s, and the pure layout
//! generator that assigns every cell its identity and position encodings.
//!
//! Positions are fixed-point thousandths of a grid unit.  The grid spans
//! 14 x 4 units; a handful of wide keys sit at half-unit offsets.

use vstd::prelude::*;

use crate::arith::trunc_div;
use crate::bounds::Bounds;
use crate::color::{Color, ColorBlendTypes};
use crate::key::{Key, Vec2};

verus! {

pub const MATRIX_ROWS: usize = 6;

pub const MATRIX_COLS: usize = 21;

pub const MATRIX_CELLS: usize = 126;

/// Every position encoding a well-formed matrix holds stays within this
/// magnitude, which keeps bounds arithmetic far from overflow.
pub const POS_LIMIT: i32 = 0x10_0000;

/// A fixed-size grid of keys, one grid per compositing layer.
#[derive(Clone, Debug)]
pub struct KeyboardMatrix {
    pub keys: Vec<Key>,
}

pub open spec fn key_in_pos_range(k: Key) -> bool {
    &&& -POS_LIMIT <= k.physical_position.x <= POS_LIMIT
    &&& -POS_LIMIT <= k.physical_position.y <= POS_LIMIT
    &&& -POS_LIMIT <= k.pos_norm.x <= POS_LIMIT
    &&& -POS_LIMIT <= k.pos_norm.y <= POS_LIMIT
    &&& -POS_LIMIT <= k.pos_norm_aspect.x <= POS_LIMIT
    &&& -POS_LIMIT <= k.pos_norm_aspect.y <= POS_LIMIT
}

impl KeyboardMatrix {
    /// Well-formed: the full grid is present and positions are in range.
    pub open spec fn wf(self) -> bool {
        &&& self.keys@.len() == MATRIX_CELLS
        &&& forall|i: int| 0 <= i < self.keys@.len() ==> key_in_pos_range(#[trigger] self.keys@[i])
    }

    /// The key stored at flattened index `idx` (row major: `row * 21 + col`).
    pub fn key_at(&self, idx: usize) -> (k: Key)
        requires
            idx < self.keys@.len(),
        ensures
            k == self.keys@[idx as int],
    {
        self.keys[idx]
    }

    /// Replace the key stored at flattened index `idx`.
    pub fn set_key(&mut self, idx: usize, k: Key)
        requires
            idx < old(self).keys@.len(),
        ensures
            final(self).keys@ == old(self).keys@.update(idx as int, k),
    {
        self.keys[idx] = k;
    }
}

/// Physical x position of the cell at (row, col), in thousandths.
pub open spec fn phys_x_of(r: int, c: int) -> int {
    if r == 1 && c == 13 {
        13500
    } else if r == 3 && c == 13 {
        13500
    } else if r == 4 && c == 13 {
        12500
    } else {
        c * 1000
    }
}

/// Physical y position of the cell at (row, col), in thousandths.
pub open spec fn phys_y_of(r: int, c: int) -> int {
    if r == 1 && c == 13 {
        1000
    } else if r == 3 && c == 13 {
        2500
    } else if r == 4 && c == 13 {
        4000
    } else {
        r * 1000
    }
}

/// Normalize an x position to the 14-unit board width, centre it, and apply
/// the small manual centre correction.
pub open spec fn norm_x_of(px: int) -> int {
    px / 14 - 450
}

/// Normalize a y position to the 4-unit board height and centre it.
pub open spec fn norm_y_of(py: int) -> int {
    py / 4 - 500
}

/// Aspect-ratio correction: scale x by 14/4.
pub open spec fn aspect_x_of(nx: int) -> int {
    trunc_div(nx * 7, 2)
}

/// The key the layout generator produces for the cell at (row, col):
/// identity and positions filled in, color black, blend mode `Add`.
pub open spec fn layout_key(r: int, c: int) -> Key {
    Key {
        key: (r as u8, c as u8),
        physical_position: Vec2 { x: phys_x_of(r, c) as i32, y: phys_y_of(r, c) as i32 },
        pos_norm: Vec2 {
            x: norm_x_of(phys_x_of(r, c)) as i32,
            y: norm_y_of(phys_y_of(r, c)) as i32,
        },
        pos_norm_aspect: Vec2 {
            x: aspect_x_of(norm_x_of(phys_x_of(r, c))) as i32,
            y: norm_y_of(phys_y_of(r, c)) as i32,
        },
        color: Color::black(),
        color_blend_type: ColorBlendTypes::Add,
    }
}

/// Get the full keyboard matrix where every position is included with key data.
pub fn get_matrix() -> (m: KeyboardMatrix)
    ensures
        m.wf(),
        forall|i: int| 0 <= i < MATRIX_CELLS ==> m.keys@[i] == layout_key(i / 21, i % 21),
{
    let mut keys: Vec<Key> = Vec::new();
    let mut idx: usize = 0;
    while idx < MATRIX_CELLS
        invariant
            idx <= MATRIX_CELLS,
            keys@.len() == idx,
            forall|i: int| 0 <= i < idx ==> keys@[i] == layout_key(i / 21, i % 21),
            forall|i: int| 0 <= i < idx ==> key_in_pos_range(#[trigger] keys@[i]),
        decreases MATRIX_CELLS - idx,
    {
        let r: usize = idx / 21;
        let c: usize = idx % 21;
        let px: i32 = if r == 1 && c == 13 {
            13500
        } else if r == 3 && c == 13 {
            13500
        } else if r == 4 && c == 13 {
            12500
        } else {
            c as i32 * 1000
        };
        let py: i32 = if r == 1 && c == 13 {
            1000
        } else if r == 3 && c == 13 {
            2500
        } else if r == 4 && c == 13 {
            4000
        } else {
            r as i32 * 1000
        };
        let nx: i32 = px / 14 - 450;
        let ny: i32 = py / 4 - 500;
        let t: i32 = nx * 7;
        let ax: i32 = if t >= 0 {
            t / 2
        } else {
            -((-t) / 2)
        };
        let k = Key {
            key: (r as u8, c as u8),
            physical_position: Vec2 { x: px, y: py },
            pos_norm: Vec2 { x: nx, y: ny },
            pos_norm_aspect: Vec2 { x: ax, y: ny },
            color: Color { red: 0, green: 0, blue: 0 },
            color_blend_type: ColorBlendTypes::Add,
        };
        assert(k == layout_key(idx as int / 21, idx as int % 21));
        keys.push(k);
        idx = idx + 1;
    }
    KeyboardMatrix { keys }
}

/// The smallest element of a non-empty sequence.
pub open spec fn seq_min(s: Seq<i32>) -> int
    recommends
        s.len() >= 1,
    decreases s.len(),
{
    if s.len() <= 1 {
        s[0] as int
    } else {
        let m = seq_min(s.drop_last());
        if s.last() < m {
            s.last() as int
        } else {
            m
        }
    }
}

/// The largest element of a non-empty sequence.
pub open spec fn seq_max(s: Seq<i32>) -> int
    recommends
        s.len() >= 1,
    decreases s.len(),
{
    if s.len() <= 1 {
        s[0] as int
    } else {
        let m = seq_max(s.drop_last());
        if s.last() > m {
            s.last() as int
        } else {
            m
        }
    }
}

pub open spec fn norm_xs(m: KeyboardMatrix) -> Seq<i32> {
    m.keys@.map_values(|k: Key| k.pos_norm.x)
}

pub open spec fn norm_ys(m: KeyboardMatrix) -> Seq<i32> {
    m.keys@.map_values(|k: Key| k.pos_norm.y)
}

/// The tightest axis-aligned rectangle around the normalized key positions:
/// its corner is the componentwise minimum, its size the componentwise span.
pub fn compute_bounds(matrix: &KeyboardMatrix) -> (r: Bounds)
    requires
        matrix.wf(),
    ensures
        r.position.x == seq_min(norm_xs(*matrix)),
        r.position.y == seq_min(norm_ys(*matrix)),
        r.size.x == seq_max(norm_xs(*matrix)) - seq_min(norm_xs(*matrix)),
        r.size.y == seq_max(norm_ys(*matrix)) - seq_min(norm_ys(*matrix)),
    {
    let xs = Ghost(norm_xs(*matrix));
    let ys = Ghost(norm_ys(*matrix));
    let first = matrix.key_at(0);
    let mut min_x: i32 = first.pos_norm.x;
    let mut max_x: i32 = first.pos_norm.x;
    let mut min_y: i32 = first.pos_norm.y;
    let mut max_y: i32 = first.pos_norm.y;
    let mut idx: usize = 1;
    while idx < MATRIX_CELLS
        invariant
            1 <= idx <= MATRIX_CELLS,
            matrix.wf(),
            xs@ == norm_xs(*matrix),
            ys@ == norm_ys(*matrix),
            min_x == seq_min(xs@.take(idx as int)),
            max_x == seq_max(xs@.take(idx as int)),
            min_y == seq_min(ys@.take(idx as int)),
            max_y == seq_max(ys@.take(idx as int)),
            -POS_LIMIT <= min_x <= POS_LIMIT,
            -POS_LIMIT <= max_x <= POS_LIMIT,
            -POS_LIMIT <= min_y <= POS_LIMIT,
            -POS_LIMIT <= max_y <= POS_LIMIT,
        decreases MATRIX_CELLS - idx,
    {
        let k = matrix.key_at(idx);
        proof {
            assert(xs@.take(idx as int + 1).drop_last() =~= xs@.take(idx as int));
            assert(ys@.take(idx as int + 1).drop_last() =~= ys@.take(idx as int));
            assert(xs@.take(idx as int + 1).last() == k.pos_norm.x);
            assert(ys@.take(idx as int + 1).last() == k.pos_norm.y);
        }
        if k.pos_norm.x < min_x {
            min_x = k.pos_norm.x;
        }
        if k.pos_norm.x > max_x {
            max_x = k.pos_norm.x;
        }
        if k.pos_norm.y < min_y {
            min_y = k.pos_norm.y;
        }
        if k.pos_norm.y > max_y {
            max_y = k.pos_norm.y;
        }
        idx = idx + 1;
    }
    proof {
        assert(xs@.take(MATRIX_CELLS as int) =~= xs@);
        assert(ys@.take(MATRIX_CELLS as int) =~= ys@);
    }
    Bounds {
        position: Vec2 { x: min_x, y: min_y },
        size: Vec2 { x: max_x - min_x, y: max_y - min_y },
    }
}

} // verus!
