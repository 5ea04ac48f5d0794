//! The shapes and layouts of the host's tensor operations.
//!
//! Numbers are 32-bit floats held as bits. What computes with them stands outside the
//! library; here is which number goes where, and which shapes are refused.

use vstd::prelude::*;

use crate::error;
use crate::error::{Error, ErrorView, Fault};
use crate::gpu::shapes;

verus! {

/// A matrix of `rows` by `columns` with its axes exchanged.
pub open spec fn transposed(words: Seq<u32>, rows: int, columns: int) -> Seq<u32> {
    Seq::new((rows * columns) as nat, |i: int| words[(i % rows) * columns + i / rows])
}

proof fn lemma_transposed(i: int, rows: int, columns: int)
    requires
        0 <= i < rows * columns,
        0 < rows,
        0 < columns,
    ensures
        0 <= i % rows < rows,
        0 <= i / rows < columns,
        0 <= (i % rows) * columns + i / rows < rows * columns,
{
    vstd::arithmetic::div_mod::lemma_fundamental_div_mod(i, rows);
    assert(0 <= i % rows < rows && 0 <= i / rows < columns) by (nonlinear_arith)
        requires
            0 <= i < rows * columns,
            0 < rows,
    ;
    shapes::lemma_inside(i % rows, rows, i / rows, columns);
}

/// A matrix with its axes exchanged.
pub fn transpose_owned(words: &Vec<u32>, rows: usize, columns: usize) -> (r: Vec<u32>)
    requires
        words@.len() == rows * columns,
    ensures
        r@ == transposed(words@, rows as int, columns as int),
{
    let count: usize = words.len();
    let mut r: Vec<u32> = Vec::new();
    let mut i: usize = 0;
    while i < count
        invariant
            i <= count,
            count == rows * columns,
            words@.len() == rows * columns,
            r@ == transposed(words@, rows as int, columns as int).take(i as int),
        decreases count - i,
    {
        proof {
            assert(rows > 0 && columns > 0) by (nonlinear_arith)
                requires
                    0 < rows * columns,
                    0 <= rows,
                    0 <= columns,
            ;
            lemma_transposed(i as int, rows as int, columns as int);
            assert(0 <= (i % rows) * columns) by (nonlinear_arith)
                requires
                    0 <= i % rows,
                    0 <= columns,
            ;
        }
        let at: usize = (i % rows) * columns + i / rows;
        r.push(words[at]);
        i += 1;
        assert(r@ =~= transposed(words@, rows as int, columns as int).take(i as int));
    }
    assert(r@ =~= transposed(words@, rows as int, columns as int));
    r
}

/// The number at a row and a column lies at that column and row of the exchanged matrix.
pub proof fn law_axes_exchange(words: Seq<u32>, rows: int, columns: int, row: int, column: int)
    requires
        0 <= row < rows,
        0 <= column < columns,
    ensures
        0 <= column * rows + row < rows * columns,
        transposed(words, rows, columns)[column * rows + row] == words[row * columns + column],
{
    shapes::lemma_inside(column, columns, row, rows);
    assert(columns * rows == rows * columns) by (nonlinear_arith);
    shapes::lemma_split(column, rows, row);
}

/// Exchanging the axes twice gives the matrix back.
pub proof fn law_exchanging_twice_is_nothing(words: Seq<u32>, rows: int, columns: int)
    requires
        0 < rows,
        0 < columns,
        words.len() == rows * columns,
    ensures
        transposed(transposed(words, rows, columns), columns, rows) == words,
{
    let once = transposed(words, rows, columns);
    let twice = transposed(once, columns, rows);
    assert(columns * rows == rows * columns) by (nonlinear_arith);
    assert forall|i: int| 0 <= i < words.len() implies twice[i] == words[i] by {
        lemma_transposed(i, columns, rows);
        let row = i / columns;
        let column = i % columns;
        law_axes_exchange(words, rows, columns, row, column);
        vstd::arithmetic::div_mod::lemma_fundamental_div_mod(i, columns);
        assert(row * columns == columns * row) by (nonlinear_arith);
    }
    assert(twice =~= words);
}

/// A fully connected layer, its weights stored `(in, out)`.
#[derive(Debug, Clone)]
pub struct Linear {
    pub weight_t: Vec<u32>,
    pub bias: Option<Vec<u32>>,
    pub inputs: usize,
    pub outputs: usize,
}

impl Linear {
    /// The weights have both axes.
    pub open spec fn wf(&self) -> bool {
        self.weight_t@.len() == self.inputs * self.outputs
    }

    /// A layer of weights given `(out, in)`.
    pub fn new(weight: &Vec<u32>, bias: Option<Vec<u32>>, outputs: usize, inputs: usize) -> (r:
        Self)
        requires
            weight@.len() == outputs * inputs,
        ensures
            r.wf(),
            r.weight_t@ == transposed(weight@, outputs as int, inputs as int),
            r.bias == bias,
            r.inputs == inputs,
            r.outputs == outputs,
    {
        assert(outputs * inputs == inputs * outputs) by (nonlinear_arith);
        Linear { weight_t: transpose_owned(weight, outputs, inputs), bias, inputs, outputs }
    }

    pub fn in_features(&self) -> (r: usize)
        ensures
            r == self.inputs,
    {
        self.inputs
    }

    pub fn out_features(&self) -> (r: usize)
        ensures
            r == self.outputs,
    {
        self.outputs
    }
}

/// Refuses scales that do not match the features they scale.
pub fn check_rms_norm(entries: usize, dim: usize) -> (r: Result<(), Error>)
    ensures
        error::told(r) == if entries == dim {
            Ok::<(), ErrorView>(())
        } else {
            Err(Error::Shape(Fault::RmsGamma { entries, dim }))
        },
{
    if entries != dim {
        return Err(Error::Shape(Fault::RmsGamma { entries, dim }));
    }
    Ok(())
}

/// How many features a gated unit of `width` features leaves.
pub fn glu_features(width: usize) -> (r: Result<usize, Error>)
    ensures
        error::told(r) == if width % 2 == 0 {
            Ok::<usize, ErrorView>((width / 2) as usize)
        } else {
            Err(Error::Shape(Fault::GluWidth { width }))
        },
{
    if width % 2 != 0 {
        return Err(Error::Shape(Fault::GluWidth { width }));
    }
    Ok(width / 2)
}

/// A 32-bit float with its sign turned.
pub open spec fn negated(word: u32) -> u32 {
    if word >= 0x80000000 {
        (word - 0x80000000) as u32
    } else {
        (word + 0x80000000) as u32
    }
}

/// A row whose neighbours are rotated by a quarter: `(a, b)` becomes `(-b, a)`. An odd
/// last number becomes zero.
pub open spec fn quarter_turned(row: Seq<u32>) -> Seq<u32> {
    Seq::new(
        row.len(),
        |i: int|
            if i % 2 == 0 && i + 1 < row.len() {
                negated(row[i + 1])
            } else if i % 2 == 1 {
                row[i - 1]
            } else {
                0
            },
    )
}

/// Rotates neighbours by a quarter, as rotary embeddings pair them.
pub fn rotate_half(row: &Vec<u32>) -> (r: Vec<u32>)
    ensures
        r@ == quarter_turned(row@),
{
    let len: usize = row.len();
    let mut r: Vec<u32> = Vec::new();
    let mut i: usize = 0;
    while i < len
        invariant
            i <= len,
            len == row@.len(),
            r@ == quarter_turned(row@).take(i as int),
        decreases len - i,
    {
        let word: u32 = if i % 2 == 0 {
            if i + 1 < len {
                let next: u32 = row[i + 1];
                if next >= 0x80000000 {
                    next - 0x80000000
                } else {
                    next + 0x80000000
                }
            } else {
                0
            }
        } else {
            row[i - 1]
        };
        r.push(word);
        i += 1;
        assert(r@ =~= quarter_turned(row@).take(i as int));
    }
    assert(r@ =~= quarter_turned(row@));
    r
}

/// Four quarters are a whole turn.
pub proof fn law_four_quarters_turn_back(row: Seq<u32>)
    requires
        row.len() % 2 == 0,
    ensures
        quarter_turned(quarter_turned(quarter_turned(quarter_turned(row)))) == row,
{
    assert(quarter_turned(quarter_turned(quarter_turned(quarter_turned(row)))) =~= row);
}

} // verus!
