//! Rounding and grids.

use vstd::prelude::*;

use crate::gpu::shaders;

verus! {

/// `a / b`, rounded up.
pub open spec fn ceil(a: int, b: int) -> int {
    (a + b - 1) / b
}

/// `a / b`, rounded up.
pub fn ceil_div(a: usize, b: usize) -> (r: usize)
    requires
        b > 0,
    ensures
        r == ceil(a as int, b as int),
        r <= a,
{
    proof {
        lemma_ceil(a as int, b as int);
    }
    if a % b == 0 {
        a / b
    } else {
        a / b + 1
    }
}

proof fn lemma_ceil(a: int, b: int)
    by (nonlinear_arith)
    requires
        a >= 0,
        b > 0,
    ensures
        a % b == 0 ==> ceil(a, b) == a / b,
        a % b != 0 ==> ceil(a, b) == a / b + 1,
        0 <= ceil(a, b) <= a,
        a / b <= a,
        a % b != 0 ==> a / b + 1 <= a,
{
    let q = a / b;
    let r = a % b;
    assert(a == b * q + r);
    assert(0 <= r < b);
    assert(q >= 0);
    assert(b * q >= q);
    if r == 0 {
        assert(a + b - 1 == b * q + (b - 1));
        assert((a + b - 1) / b == q);
    } else {
        assert(a + b - 1 == b * (q + 1) + (r - 1));
        assert((a + b - 1) / b == q + 1);
    }
}

/// `v`, or one where that is less.
pub open spec fn at_least_one(v: int) -> int {
    if v < 1 {
        1
    } else {
        v
    }
}

/// `v`, or one where that is less.
pub fn at_least_one_of(v: usize) -> (r: usize)
    ensures
        r == at_least_one(v as int),
{
    if v < 1 {
        1
    } else {
        v
    }
}

/// `value` rounded up to a multiple of `tile`.
pub open spec fn padded(value: int, tile: int) -> int {
    ceil(value, tile) * tile
}

/// Padding gives a multiple of the tile less than one tile above the value, and
/// padding again changes nothing.
pub proof fn law_padding(value: int, tile: int)
    requires
        value >= 0,
        tile > 0,
    ensures
        padded(value, tile) % tile == 0,
        value <= padded(value, tile) < value + tile,
        padded(padded(value, tile), tile) == padded(value, tile),
{
    lemma_padded(value, tile);
    lemma_padded(padded(value, tile), tile);
}

proof fn lemma_padded(value: int, tile: int)
    by (nonlinear_arith)
    requires
        value >= 0,
        tile > 0,
    ensures
        padded(value, tile) % tile == 0,
        value <= padded(value, tile) < value + tile,
        value % tile == 0 ==> padded(value, tile) == value,
{
    let top = value + tile - 1;
    let q = top / tile;
    assert(top == tile * q + top % tile);
    assert(0 <= top % tile < tile);
    assert(padded(value, tile) == q * tile);
    assert((q * tile) % tile == 0);
    if value % tile == 0 {
        let v = value / tile;
        assert(value == tile * v);
        assert(top == tile * v + (tile - 1));
        assert(q == v);
    }
}

/// No smaller multiple of the tile covers the value.
pub proof fn law_padding_is_least(value: int, tile: int, multiple: int)
    by (nonlinear_arith)
    requires
        value >= 0,
        tile > 0,
        multiple >= value,
        multiple % tile == 0,
    ensures
        padded(value, tile) <= multiple,
{
    let top = value + tile - 1;
    let q = top / tile;
    let m = multiple / tile;
    assert(multiple == tile * m);
    assert(top == tile * q + top % tile);
    assert(0 <= top % tile < tile);
    assert(tile * q <= value + tile - 1);
    if q > m {
        assert(tile * q >= tile * (m + 1));
        assert(tile * (m + 1) == tile * m + tile);
    }
    assert(q * tile <= m * tile);
}

/// Rounds `value` up to the next multiple of `tile`.
pub fn pad_ceil(value: usize, tile: usize) -> (r: usize)
    requires
        tile > 0,
        padded(value as int, tile as int) <= usize::MAX,
    ensures
        r == padded(value as int, tile as int),
        value <= r,
        r < value + tile,
{
    proof {
        lemma_padded(value as int, tile as int);
    }
    ceil_div(value, tile) * tile
}

/// The row pitch of a `cols`-wide operand.
pub fn pad_pitch(cols: usize, tile: usize) -> (r: usize)
    requires
        tile > 0,
        padded(cols as int, tile as int) <= usize::MAX,
    ensures
        r == padded(cols as int, tile as int),
        cols <= r,
        r < cols + tile,
{
    pad_ceil(cols, tile)
}

/// The two-axis grid of `rows` row-wise workgroups: at most [`shaders::ROW_GRID_X`]
/// along x, the rest along y, and at least one along each.
pub open spec fn row_grid_spec(rows: int) -> (u32, u32) {
    let x = if rows < shaders::ROW_GRID_X {
        rows
    } else {
        shaders::ROW_GRID_X as int
    };
    let y = ceil(rows, shaders::ROW_GRID_X as int);
    (
        (if x < 1 {
            1
        } else {
            x
        }) as u32,
        (if y < 1 {
            1
        } else {
            y
        }) as u32,
    )
}

/// A grid that covers `rows` row-wise workgroups.
pub fn row_grid(rows: usize) -> (r: (u32, u32))
    ensures
        r == row_grid_spec(rows as int),
{
    let x: usize = if rows < shaders::ROW_GRID_X {
        rows
    } else {
        shaders::ROW_GRID_X
    };
    let y: usize = ceil_div(rows, shaders::ROW_GRID_X);
    (
        (if x < 1 {
            1
        } else {
            x
        }) as u32,
        (if y < 1 {
            1
        } else {
            y
        }) as u32,
    )
}

/// A row grid covers its rows, never takes more than 65535 workgroups along x, and
/// stays within that along y too for as many rows as two such axes can hold.
pub proof fn law_row_grid_covers(rows: int)
    requires
        0 <= rows,
    ensures
        1 <= row_grid_spec(rows).0 <= 65535,
        rows <= 65535 * 65535 ==> {
            &&& row_grid_spec(rows).0 * row_grid_spec(rows).1 >= rows
            &&& 1 <= row_grid_spec(rows).1 <= 65535
        },
{
    if rows <= 65535 * 65535 {
        let y = ceil(rows, 65535);
        assert(y * 65535 >= rows);
        assert(y <= 65535);
        if rows < 65535 {
            assert(row_grid_spec(rows).1 == 1);
        } else {
            assert(row_grid_spec(rows).0 == 65535);
        }
    }
}

/// A product does not shrink when a factor grows.
pub proof fn lemma_mul_le(a: int, b: int, c: int)
    by (nonlinear_arith)
    requires
        a <= b,
        0 <= c,
    ensures
        a * c <= b * c,
        c * a <= c * b,
{
}

/// A product of non-negative numbers is non-negative, and at least either factor
/// when the other is positive.
pub proof fn lemma_mul_bounds(a: int, b: int)
    by (nonlinear_arith)
    requires
        0 <= a,
        0 <= b,
    ensures
        0 <= a * b,
        b >= 1 ==> a <= a * b,
        a >= 1 ==> b <= a * b,
{
}

} // verus!
