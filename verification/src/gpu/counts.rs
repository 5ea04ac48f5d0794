//! Tests of whether sizes can be counted in a machine word.

use vstd::prelude::*;

use crate::gpu::arith;
use crate::gpu::encoder;
use crate::gpu::recorder;
use crate::gpu::tensor;

verus! {

/// `a * b`, where it can be counted.
pub fn times(a: usize, b: usize) -> (r: Option<usize>)
    ensures
        match r {
            Some(n) => n == a * b,
            None => a * b > usize::MAX,
        },
{
    a.checked_mul(b)
}

/// Whether `a * b` can be counted.
pub fn fits_2(a: usize, b: usize) -> (r: bool)
    ensures
        r == (a * b <= usize::MAX),
{
    times(a, b).is_some()
}

/// Whether `a * b * c` can be counted, factor by factor.
pub fn fits_3(a: usize, b: usize, c: usize) -> (r: bool)
    ensures
        r == (a * b <= usize::MAX && a * b * c <= usize::MAX),
{
    match times(a, b) {
        Some(n) => fits_2(n, c),
        None => false,
    }
}

/// Whether `a * b * c * d` can be counted, factor by factor.
pub fn fits_4(a: usize, b: usize, c: usize, d: usize) -> (r: bool)
    ensures
        r == (a * b <= usize::MAX && a * b * c <= usize::MAX && a * b * c * d <= usize::MAX),
{
    match times(a, b) {
        Some(n) => fits_3(n, c, d),
        None => false,
    }
}

/// `value` rounded up to a multiple of `tile`, where it can be counted.
pub fn padding(value: usize, tile: usize) -> (r: Option<usize>)
    requires
        tile > 0,
    ensures
        match r {
            Some(n) => n == arith::padded(value as int, tile as int),
            None => arith::padded(value as int, tile as int) > usize::MAX,
        },
{
    times(arith::ceil_div(value, tile), tile)
}

/// Whether the bytes of `elements` numbers can be rounded up.
pub fn rounds(elements: usize) -> (r: bool)
    ensures
        r == recorder::roundable((4 * elements) as nat),
{
    elements <= (usize::MAX - 255) / 4
}

/// Whether the bytes of `elements` numbers can be counted.
pub fn bytes_fit(elements: usize) -> (r: bool)
    ensures
        r == (4 * elements <= usize::MAX),
{
    elements <= usize::MAX / 4
}

fn asks(shape: &Vec<usize>) -> (r: bool)
    ensures
        r == recorder::askable(shape@),
{
    match tensor::count_of(shape) {
        Some(n) => rounds(n),
        None => false,
    }
}

/// Whether an `(a, b)` tensor can be asked for.
pub fn asks_2(a: usize, b: usize) -> (r: bool)
    ensures
        r == recorder::askable(seq![a, b]),
{
    let shape: Vec<usize> = vec![a, b];
    assert(shape@ =~= seq![a, b]);
    asks(&shape)
}

/// Whether an `(a, b, c)` tensor can be asked for.
pub fn asks_3(a: usize, b: usize, c: usize) -> (r: bool)
    ensures
        r == recorder::askable(seq![a, b, c]),
{
    asks(&encoder::axes_3(a, b, c))
}

/// Whether an `(a, b, c, d)` tensor can be asked for.
pub fn asks_4(a: usize, b: usize, c: usize, d: usize) -> (r: bool)
    ensures
        r == recorder::askable(seq![a, b, c, d]),
{
    asks(&encoder::axes_4(a, b, c, d))
}

/// Whether the elements of an `(a, b, c)` tensor can be counted.
pub fn counts_3(a: usize, b: usize, c: usize) -> (r: bool)
    ensures
        r == tensor::countable(seq![a, b, c]),
{
    tensor::count_of(&encoder::axes_3(a, b, c)).is_some()
}

/// Whether `a * b + c * d + tail` can be counted.
pub fn reaches(a: usize, b: usize, c: usize, d: usize, tail: usize) -> (r: bool)
    ensures
        r == (a * b + c * d + tail <= usize::MAX),
{
    proof {
        arith::lemma_mul_bounds(a as int, b as int);
        arith::lemma_mul_bounds(c as int, d as int);
    }
    match (times(a, b), times(c, d)) {
        (Some(m), Some(n)) => match m.checked_add(n) {
            Some(sum) => sum.checked_add(tail).is_some(),
            None => false,
        },
        _ => false,
    }
}

/// Whether a tensor of three axes is empty.
pub fn empty_3(a: usize, b: usize, c: usize) -> (r: bool)
    ensures
        r == (tensor::elements(seq![a, b, c]) == 0),
{
    proof {
        lemma_elements_3(a, b, c);
        lemma_zero(a as int, b as int);
        lemma_zero(a * b, c as int);
    }
    a == 0 || b == 0 || c == 0
}

/// Whether a tensor of four axes is empty.
pub fn empty_4(a: usize, b: usize, c: usize, d: usize) -> (r: bool)
    ensures
        r == (tensor::elements(seq![a, b, c, d]) == 0),
{
    proof {
        lemma_elements_3(a, b, c);
        assert(seq![a, b, c, d].drop_last() =~= seq![a, b, c]);
        lemma_zero(a as int, b as int);
        lemma_zero(a * b, c as int);
        lemma_zero(a * b * c, d as int);
    }
    a == 0 || b == 0 || c == 0 || d == 0
}

proof fn lemma_elements_3(a: usize, b: usize, c: usize)
    ensures
        tensor::elements(seq![a, b, c]) == a * b * c,
{
    let none = Seq::<usize>::empty();
    assert(seq![a].drop_last() =~= none);
    assert(seq![a, b].drop_last() =~= seq![a]);
    assert(seq![a, b, c].drop_last() =~= seq![a, b]);
    assert(tensor::elements(none) == 1);
    assert(tensor::elements(seq![a]) == 1 * (a as nat));
    assert(tensor::elements(seq![a, b]) == (a as nat) * (b as nat));
    assert(tensor::elements(seq![a, b, c]) == tensor::elements(seq![a, b]) * (c as nat));
}

proof fn lemma_zero(a: int, b: int)
    by (nonlinear_arith)
    ensures
        (a * b == 0) == (a == 0 || b == 0),
{
}

} // verus!
